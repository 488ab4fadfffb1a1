//! Operations run twice against rows that are kept in memory.

use std::collections::BTreeMap;

use telchar::backend::{
    BackendCapabilities, CancellationCapability, CapabilityTable, ExecutionRecovery, LogRecovery,
};
use telchar::persistence::attachments::{
    complete_request_delivery, detach_request, RequestAttachmentFailure, RequestAttachmentState,
};
use telchar::persistence::callback_nonces::reserve_nomad_callback_nonce;
use telchar::persistence::attempts::{
    complete_execution_failure, complete_execution_success, ExecutionAttemptFailure,
    ExecutionAttemptState,
};
use telchar::persistence::database::{
    AttachmentRow, AttemptRow, LedgerRow, LocalExecutionRow, LocalResultRow, OutcomeRow,
    QueueEntryRow, QueuedRequestRow, Reply, ReservationRow, SharedAttemptRow, SharedBuildRow,
    Statement, Step, WorkerLimits,
};
use telchar::persistence::executor::{
    complete_local_backend_execution, register_local_backend_execution,
    LocalBackendExecutionFailure, LocalBackendExecutionState,
};
use telchar::persistence::migrations::{migrate_list, Migration};
use telchar::persistence::shared_builds::{
    complete_shared_build_failure, complete_shared_build_success, enqueue_shared_build,
    read_queued_shared_builds, start_queued_shared_build, SharedBuildFailure, SharedBuildRules,
    SharedBuildState,
};
use telchar::time::Span;

#[derive(Default)]
struct Rows {
    now: i64,
    ledger: Vec<LedgerRow>,
    executions: Vec<LocalExecutionRow>,
    results: Vec<LocalResultRow>,
    nonces: BTreeMap<[u8; 32], i64>,
    attachments: Vec<AttachmentRow>,
    attempt: Option<AttemptRow>,
    request: Option<QueuedRequestRow>,
    reservation: Option<ReservationRow>,
    outcomes: Vec<OutcomeRow>,
    builds: BTreeMap<String, SharedBuildRow>,
    subjects: BTreeMap<String, (String, i64)>,
}

impl Rows {
    fn execution(&self, id: &str) -> Option<LocalExecutionRow> {
        let found = self.executions.iter().find(|row| row.backend_execution_id == id);
        found.cloned()
    }

    fn count(&self, subject: &str, state: &str) -> i64 {
        let counted = self.builds.iter().filter(|(path, row)| {
            row.state == state && self.subjects.get(*path).is_some_and(|entry| entry.0 == subject)
        });
        counted.count() as i64
    }

    fn entry(&self, path: &str) -> Option<QueueEntryRow> {
        let (subject, place) = self.subjects.get(path)?;
        (self.builds[path].state == "claimed").then(|| QueueEntryRow {
            derivation_path: path.to_string(),
            quota_subject: subject.clone(),
            queue_position: *place,
            queued_at: 0,
        })
    }

    fn claim(&mut self, path: &str) {
        self.builds.insert(
            path.to_string(),
            SharedBuildRow {
                derivation_path: path.to_string(),
                request_digest: vec![7; 32],
                state: "claimed".into(),
                backend_name: "local".into(),
                backend_kind: "local".into(),
                execution_recovery: "adoptable".into(),
                cancellation: "explicit".into(),
                log_recovery: "replayable".into(),
                backend_execution_id: Some("execution".into()),
                expected_outputs: vec!["/nix/store/out".into()],
                build_request: None,
                result_metadata: None,
                failure_classification: None,
                created_at: 0,
                started_at: None,
                collecting_at: None,
                completed_at: None,
                expires_at: None,
            },
        );
    }

    fn end(&mut self, state: &str) -> Reply {
        let now = self.now;
        let Some(row) = self.attachments.iter_mut().find(|row| row.state == "attached") else {
            return Reply::Attachment(None);
        };
        row.state = state.to_string();
        match state {
            "detached" => row.detached_at = Some(now),
            _ => row.delivered_at = Some(now),
        }
        Reply::Attachment(Some(row.clone()))
    }

    fn perform(&mut self, statement: Statement) -> Reply {
        match statement {
            Statement::ReadLedger => Reply::Ledger(self.ledger.clone()),
            Statement::RecordMigration { version, name, checksum } => {
                let name = name.to_string();
                self.ledger.push(LedgerRow { version, name, checksum: checksum.to_vec() });
                Reply::Changed(1)
            }
            Statement::LockLocalExecutionByKeys { backend_execution_id, idempotency_key } => {
                let found = self.executions.iter().find(|row| {
                    row.backend_execution_id == backend_execution_id
                        || row.idempotency_key == idempotency_key
                });
                Reply::LocalExecution(found.cloned())
            }
            Statement::RegisterLocalExecution {
                backend_execution_id,
                idempotency_key,
                specification_digest,
            } => {
                let row = LocalExecutionRow {
                    backend_execution_id,
                    idempotency_key,
                    specification_digest: specification_digest.to_vec(),
                    state: "accepted".to_string(),
                    created_at: self.now,
                    started_at: None,
                    completed_at: None,
                };
                self.executions.push(row.clone());
                Reply::LocalExecution(Some(row))
            }
            Statement::LockLocalExecution { backend_execution_id } => {
                Reply::LocalExecution(self.execution(&backend_execution_id))
            }
            Statement::ReadLocalResult { .. } => Reply::LocalResult(self.results.last().cloned()),
            Statement::InsertLocalResult {
                backend_execution_id,
                classification,
                result_metadata,
            } => {
                let row = LocalResultRow {
                    backend_execution_id,
                    classification,
                    result_metadata,
                    created_at: self.now,
                };
                self.results.push(row.clone());
                Reply::LocalResult(Some(row))
            }
            Statement::FinishRunningLocalExecution { state, .. } => {
                self.executions[0].state = state.to_string();
                self.executions[0].completed_at = Some(self.now);
                Reply::LocalExecution(Some(self.executions[0].clone()))
            }
            Statement::ForgetExpiredCallbackNonces => {
                let now = self.now;
                self.nonces.retain(|_, expires_at| *expires_at > now);
                Reply::Changed(0)
            }
            Statement::CountCallbackNonces => Reply::Count(self.nonces.len() as i64),
            Statement::InsertCallbackNonce { nonce_digest, expires_at, .. } => {
                if self.nonces.contains_key(&nonce_digest) {
                    return Reply::Changed(0);
                }
                self.nonces.insert(nonce_digest, expires_at);
                Reply::Changed(1)
            }
            Statement::LockAttempt { .. } => Reply::Attempt(self.attempt.clone()),
            Statement::LockQueuedRequest { .. } => Reply::QueuedRequest(self.request.clone()),
            Statement::ReleaseReservation { .. } => {
                let now = self.now;
                self.reservation.as_mut().unwrap().released_at = Some(now);
                Reply::Reservation(self.reservation.clone())
            }
            Statement::EndAttempt { to, .. } => {
                let row = self.attempt.as_mut().unwrap();
                row.state = to.to_string();
                row.completed_at = Some(self.now);
                Reply::Attempt(self.attempt.clone())
            }
            Statement::InsertOutcome { attempt_id, classification, result_metadata } => {
                let created_at = self.now;
                self.outcomes.push(OutcomeRow {
                    attempt_id,
                    classification,
                    result_metadata,
                    created_at,
                });
                Reply::Outcome(self.outcomes.last().cloned())
            }
            Statement::MoveRequest { to, .. } => {
                self.request.as_mut().unwrap().queue_state = to.to_string();
                Reply::QueuedRequest(self.request.clone())
            }
            Statement::LockSharedBuildState { derivation_path } => Reply::Text(
                self.builds.get(&derivation_path).map(|row| Some(row.state.clone())),
            ),
            Statement::CompleteSharedBuild {
                derivation_path,
                state,
                result_metadata,
                failure_classification,
                ..
            } => {
                let row = self.builds.get_mut(&derivation_path).unwrap();
                row.state = state.to_string();
                row.result_metadata = Some(result_metadata);
                row.failure_classification = failure_classification;
                row.completed_at = Some(self.now);
                row.expires_at = Some(self.now + 1);
                Reply::SharedBuild(Some(row.clone()))
            }
            Statement::CountQueuedSharedBuilds { quota_subject } => {
                Reply::Count(self.count(&quota_subject, "claimed"))
            }
            Statement::CountActiveSharedBuilds { quota_subject } => {
                Reply::Count(self.count(&quota_subject, "running"))
            }
            Statement::EnqueueSharedBuild { derivation_path, quota_subject } => {
                if self.subjects.contains_key(&derivation_path) {
                    return Reply::QueueEntry(None);
                }
                let place = self.subjects.len() as i64 + 1;
                self.subjects.insert(derivation_path.clone(), (quota_subject, place));
                Reply::QueueEntry(self.entry(&derivation_path))
            }
            Statement::LockQueuedSubject { derivation_path } => Reply::Text(
                self.entry(&derivation_path).map(|entry| Some(entry.quota_subject)),
            ),
            Statement::StartClaimedSharedBuild { derivation_path } => {
                let row = self.builds.get_mut(&derivation_path).unwrap();
                row.state = "running".to_string();
                Reply::SharedBuild(Some(row.clone()))
            }
            Statement::ReadNextAttemptOrdinal { .. } => Reply::Ordinal(1),
            Statement::InsertRunningAttempt {
                derivation_path,
                ordinal,
                backend_name,
                backend_kind,
                backend_execution_id,
            } => Reply::SharedAttempt(Some(SharedAttemptRow {
                attempt_id: 1,
                derivation_path,
                ordinal,
                backend_name,
                backend_kind: backend_kind.to_string(),
                backend_execution_id,
                state: "running".to_string(),
                created_at: self.now,
                started_at: Some(self.now),
                collecting_at: None,
                completed_at: None,
            })),
            Statement::ReadQueuedSharedBuilds { maximum_rows } => {
                let paths: Vec<String> = self.builds.keys().cloned().collect();
                let mut entries: Vec<QueueEntryRow> =
                    paths.iter().filter_map(|path| self.entry(path)).collect();
                entries.sort_by_key(|entry| entry.queue_position);
                entries.truncate(maximum_rows as usize);
                Reply::QueueEntries(entries)
            }
            Statement::DetachAttached { .. } => self.end("detached"),
            Statement::DeliverAttached { .. } => self.end("delivered"),
            Statement::ReadAttachmentState { .. } => {
                Reply::Text(self.attachments.first().map(|row| Some(row.state.clone())))
            }
            _ => Reply::Done,
        }
    }

    fn run<T, E>(&mut self, operation: impl Fn(&Vec<Reply>) -> Step<T, E>) -> Result<T, E> {
        self.now += 1;
        let mut history = Vec::new();
        loop {
            match operation(&history) {
                Step::Perform(statement) => history.push(self.perform(statement)),
                Step::Finish(result) => return result,
            }
        }
    }
}

const URL: &str = "postgres://db";

#[test]
fn migrating_twice_applies_once() {
    let listed: Vec<Migration> = [(1, "first"), (2, "second")]
        .into_iter()
        .map(|(version, name)| Migration { version, name, sql: format!("SELECT {version}") })
        .collect();
    let mut rows = Rows::default();
    let first = rows.run(|history| migrate_list(URL, &listed, history)).unwrap();
    assert_eq!((first.previously_applied, first.applied_this_run), (0, 2));
    let second = rows.run(|history| migrate_list(URL, &listed, history)).unwrap();
    assert_eq!((second.previously_applied, second.applied_this_run), (2, 0));
    assert_eq!((first.resulting_version, second.resulting_version), (2, 2));
    assert_eq!(rows.ledger.len(), 2);
}

#[test]
fn registering_twice_leaves_one_row() {
    let mut rows = Rows::default();
    let register = |rows: &mut Rows, id: &str, key: &str, byte: u8| {
        let (id, key) = (id.to_string(), key.to_string());
        rows.run(|history| register_local_backend_execution(URL, &id, &key, &[byte; 32], history))
    };
    let first = register(&mut rows, "e", "k", 1).unwrap();
    let second = register(&mut rows, "e", "k", 1).unwrap();
    assert_eq!(first.created_at, second.created_at);
    assert_eq!(second.specification_digest, [1; 32]);
    for (id, key, byte) in [("e", "k", 2), ("e", "l", 1), ("f", "k", 1)] {
        assert_eq!(
            register(&mut rows, id, key, byte).unwrap_err().failure(),
            LocalBackendExecutionFailure::Conflict
        );
    }
    assert_eq!(rows.executions.len(), 1);
}

#[test]
fn completing_twice_keeps_the_first_end() {
    let mut rows = Rows::default();
    rows.executions.push(LocalExecutionRow {
        backend_execution_id: "e".into(),
        idempotency_key: "k".into(),
        specification_digest: vec![0; 32],
        state: "running".into(),
        created_at: 0,
        started_at: Some(0),
        completed_at: None,
    });
    let complete = |rows: &mut Rows, state, classification: &str, metadata: &str| {
        let (id, classification, metadata) =
            ("e".to_string(), classification.to_string(), metadata.to_string());
        rows.run(|history| {
            complete_local_backend_execution(URL, &id, state, &classification, &metadata, history)
        })
    };
    let failed = LocalBackendExecutionState::Failed;
    let first = complete(&mut rows, failed, "build-failure", "{\"a\":1}").unwrap();
    let second = complete(&mut rows, failed, "build-failure", "{ \"a\": 1 }").unwrap();
    assert_eq!(first.execution.completed_at, second.execution.completed_at);
    assert_eq!(first.result.created_at, second.result.created_at);
    for (state, classification, metadata) in [
        (LocalBackendExecutionState::Succeeded, "succeeded", "{\"a\":1}"),
        (failed, "input-failure", "{\"a\":1}"),
        (failed, "build-failure", "{\"a\":2}"),
    ] {
        assert_eq!(
            complete(&mut rows, state, classification, metadata).unwrap_err().failure(),
            LocalBackendExecutionFailure::Conflict
        );
    }
    assert_eq!(rows.results.len(), 1);
}

#[test]
fn reserved_nonce_is_new_once() {
    let mut rows = Rows::default();
    let reserve = |rows: &mut Rows, backend: &str, nonce: &str, expires_at| {
        let (backend, job) = (backend.to_string(), "job".to_string());
        rows.run(|history| {
            reserve_nomad_callback_nonce(
                URL, &backend, &job, &job, nonce, expires_at, 2, history,
            )
        })
    };
    assert_eq!(reserve(&mut rows, "a", "n", 100).ok(), Some(true));
    assert_eq!(reserve(&mut rows, "a", "n", 100).ok(), Some(false));
    assert_eq!(reserve(&mut rows, "b", "n", 500).ok(), Some(false));
    assert_eq!(rows.nonces.values().copied().collect::<Vec<i64>>(), [100]);
    rows.now = 100;
    assert_eq!(reserve(&mut rows, "b", "n", 500).ok(), Some(true));
    assert_eq!(reserve(&mut rows, "b", "m", 500).ok(), Some(true));
    assert!(reserve(&mut rows, "b", "o", 500).is_err());
}

#[test]
fn attached_request_ends_once() {
    let (session, request) = ("s".to_string(), "r".to_string());
    let mut rows = Rows::default();
    let missing = rows.run(|history| detach_request(URL, &session, &request, history));
    assert_eq!(missing.unwrap_err().failure(), RequestAttachmentFailure::Missing);
    rows.attachments.push(AttachmentRow {
        session_id: "s".into(),
        request_id: "r".into(),
        state: "attached".into(),
        attached_at: 1,
        detached_at: None,
        delivered_at: None,
    });
    let ended = rows.run(|history| detach_request(URL, &session, &request, history)).unwrap();
    assert_eq!(ended.state, RequestAttachmentState::Detached);
    assert_eq!(ended.attached_at, 1);
    assert!(ended.detached_at.unwrap() >= 1 && ended.delivered_at.is_none());
    let again = rows.run(|history| detach_request(URL, &session, &request, history));
    assert_eq!(again.unwrap_err().failure(), RequestAttachmentFailure::InvalidState);
    let late = rows.run(|history| complete_request_delivery(URL, &session, &request, history));
    assert_eq!(late.unwrap_err().failure(), RequestAttachmentFailure::InvalidState);
}

fn rules() -> SharedBuildRules {
    let capable = BackendCapabilities::new(
        ExecutionRecovery::Adoptable,
        CancellationCapability::Explicit,
        LogRecovery::Replayable,
    );
    SharedBuildRules {
        limits: WorkerLimits {
            maximum_store_path_bytes: 256,
            maximum_input_sources: 4,
            maximum_outputs: 4,
        },
        capabilities: CapabilityTable { local: capable, static_ssh: capable, nomad: capable },
    }
}

#[test]
fn ended_attempt_is_refused_again() {
    let mut rows = Rows::default();
    rows.attempt = Some(AttemptRow {
        attempt_id: "a".into(),
        request_id: "r".into(),
        ordinal: 1,
        idempotency_key: "k".into(),
        backend: "local".into(),
        backend_execution_id: None,
        state: "dispatching".into(),
        created_at: 0,
        submitted_at: None,
        started_at: None,
        collecting_at: None,
        completed_at: None,
        fenced_at: None,
    });
    rows.request = Some(QueuedRequestRow {
        request_id: "r".into(),
        derivation_path: "/nix/store/a.drv".into(),
        system: "x86_64-linux".into(),
        queue_state: "dispatching".into(),
        queued_at: Some(0),
        audit_subject: "auditor".into(),
        quota_subject: "team".into(),
        created_at: 0,
    });
    rows.reservation = Some(ReservationRow {
        reservation_id: "v".into(),
        attempt_id: "a".into(),
        phase: "dispatching".into(),
        quota_subject: "team".into(),
        units: 1,
        created_at: 0,
        released_at: None,
    });
    let (id, metadata) = ("a".to_string(), "{\"a\":1}".to_string());
    let fail = |rows: &mut Rows, classification: &str| {
        let classification = classification.to_string();
        rows.run(|history| {
            complete_execution_failure(URL, &id, &classification, &metadata, 256, history)
        })
    };
    let ended = fail(&mut rows, "build-failure").unwrap();
    assert_eq!(ended.attempt.state, ExecutionAttemptState::Failed);
    assert!(ended.reservation.released_at.is_some());
    assert_eq!(
        fail(&mut rows, "input-failure").unwrap_err().failure(),
        ExecutionAttemptFailure::InvalidState
    );
    let succeeded =
        rows.run(|history| complete_execution_success(URL, &id, &metadata, 256, history));
    assert_eq!(succeeded.unwrap_err().failure(), ExecutionAttemptFailure::InvalidState);
    assert_eq!(rows.outcomes.len(), 1);
}

#[test]
fn ended_build_is_refused_again() {
    let mut rows = Rows::default();
    let (path, failure, metadata) =
        ("/nix/store/a.drv".to_string(), "build-failure".to_string(), "{}".to_string());
    rows.claim(&path);
    let retention = Span::from_seconds(60);
    let fail = |rows: &mut Rows| {
        rows.run(|history| {
            complete_shared_build_failure(
                URL, &path, &failure, &metadata, &retention, &rules(), history,
            )
        })
    };
    let ended = fail(&mut rows).unwrap();
    assert_eq!(ended.state, SharedBuildState::Failed);
    assert_eq!(fail(&mut rows).unwrap_err().failure(), SharedBuildFailure::InvalidState);
    let succeeded = rows.run(|history| {
        complete_shared_build_success(URL, &path, &metadata, &retention, &rules(), history)
    });
    assert_eq!(succeeded.unwrap_err().failure(), SharedBuildFailure::InvalidState);
    assert_eq!(rows.builds[&path].state, "failed");
}

#[test]
fn subjects_keep_to_their_quotas() {
    let mut rows = Rows::default();
    for path in ["/nix/store/c.drv", "/nix/store/a.drv", "/nix/store/b.drv"] {
        rows.claim(path);
    }
    let enqueue = |rows: &mut Rows, path: &str| {
        let (path, subject) = (path.to_string(), "team".to_string());
        rows.run(|history| enqueue_shared_build(URL, &path, &subject, 2, &rules(), history))
    };
    let start = |rows: &mut Rows, path: &str| {
        let path = path.to_string();
        rows.run(|history| start_queued_shared_build(URL, &path, 1, &rules(), history))
    };
    let first = enqueue(&mut rows, "/nix/store/c.drv").unwrap();
    let second = enqueue(&mut rows, "/nix/store/a.drv").unwrap();
    assert!(first.queue_position < second.queue_position);
    assert_eq!(
        enqueue(&mut rows, "/nix/store/b.drv").unwrap_err().failure(),
        SharedBuildFailure::Quota
    );
    let listed = rows.run(|history| read_queued_shared_builds(URL, 8, history)).unwrap();
    let paths: Vec<&str> = listed.iter().map(|entry| entry.derivation_path.as_str()).collect();
    assert_eq!(paths, ["/nix/store/c.drv", "/nix/store/a.drv"]);
    assert_eq!(start(&mut rows, "/nix/store/c.drv").unwrap().derivation_path, "/nix/store/c.drv");
    assert_eq!(
        start(&mut rows, "/nix/store/a.drv").unwrap_err().failure(),
        SharedBuildFailure::Quota
    );
    assert_eq!((rows.count("team", "claimed"), rows.count("team", "running")), (1, 1));
    assert!(enqueue(&mut rows, "/nix/store/b.drv").is_ok());
}
