use sha2::Digest;
use telchar::persistence::attachments::{
    attach_request, complete_request_delivery, detach_request, read_request_attachment,
    RequestAttachmentFailure, RequestAttachmentState,
};
use telchar::persistence::build_requests::{
    create_build_request, read_build_request, BuildRequestFailure,
};
use telchar::persistence::callback_nonces::reserve_nomad_callback_nonce;
use telchar::persistence::database::{
    AttachmentRow, BuildRequestRow, DatabaseFault, LocalExecutionRow, LocalResultRow,
    QueuedRequestRow, Reply, SessionRow, Statement, Step,
};
use telchar::persistence::executor::{
    complete_local_backend_execution, read_local_backend_execution,
    read_local_backend_execution_result, record_local_backend_running,
    register_local_backend_execution, LocalBackendExecutionFailure, LocalBackendExecutionState,
};
use telchar::persistence::queue::{
    queue_build_request, recover_queued_build_requests, BuildQueueState,
};
use telchar::persistence::requester_reference;
use telchar::persistence::sessions::{
    close_protocol_session, open_protocol_session, read_protocol_session, AuthenticationAuthority,
    ProtocolSessionFailure, ProtocolSessionState,
};
use telchar::service::ipc::RequesterMetadata;

const URL: &str = "postgres://db";
const PATHS: usize = 4096;

fn text(value: &str) -> String {
    value.to_string()
}

fn failed<T: std::fmt::Debug, E>(step: Step<T, E>) -> E {
    match step {
        Step::Finish(Err(error)) => error,
        Step::Finish(Ok(value)) => panic!("succeeded with {value:?}"),
        Step::Perform(statement) => panic!("asks for {statement:?}"),
    }
}

fn finished<T, E: std::fmt::Debug>(step: Step<T, E>) -> T {
    match step {
        Step::Finish(Ok(value)) => value,
        Step::Finish(Err(error)) => panic!("failed with {error:?}"),
        Step::Perform(statement) => panic!("asks for {statement:?}"),
    }
}

fn asked<T: std::fmt::Debug, E: std::fmt::Debug>(step: Step<T, E>) -> Statement {
    match step {
        Step::Perform(statement) => statement,
        other => panic!("ended with {other:?}"),
    }
}

fn violation() -> Reply {
    Reply::Failed(DatabaseFault::UniqueViolation)
}

fn session_row(state: &str, closed_at: Option<i64>) -> SessionRow {
    SessionRow {
        session_id: text("session"),
        requester_reference: "a".repeat(64),
        credential_id: Some(text("ssh-cert:x")),
        authentication_authority: Some(text("openssh-certificate")),
        audit_subject: text("auditor"),
        quota_subject: text("team"),
        state: text(state),
        created_at: 10,
        closed_at,
    }
}

fn request_row() -> BuildRequestRow {
    BuildRequestRow {
        request_id: text("request"),
        derivation_path: text("/nix/store/a.drv"),
        system: text("x86_64-linux"),
        audit_subject: text("auditor"),
        quota_subject: text("team"),
        created_at: 10,
    }
}

fn attachment_row(state: &str, detached_at: Option<i64>, delivered_at: Option<i64>) -> AttachmentRow {
    AttachmentRow {
        session_id: text("session"),
        request_id: text("request"),
        state: text(state),
        attached_at: 10,
        detached_at,
        delivered_at,
    }
}

#[test]
fn requester_is_referred_to_by_a_digest() {
    let requester = RequesterMetadata {
        credential_id: text("ssh-pubkey:x"),
        audit_subject: text("a"),
        quota_subject: text("q"),
    };
    let reference = requester_reference(&requester);
    assert_eq!(reference.len(), 64);
    let digest = sha2::Sha256::digest(b"telchar-requester-v1\0ssh-pubkey:x\0a\0q");
    let expected: String = digest.iter().map(|byte| format!("{byte:02x}")).collect();
    assert_eq!(reference, expected);
}

#[test]
fn session_is_opened_once() {
    let open = |credential: &str, history: Vec<Reply>| {
        open_protocol_session(
            URL,
            &text("session"),
            &"a".repeat(64),
            &text(credential),
            &text("auditor"),
            &text("team"),
            &history,
        )
    };
    assert!(matches!(asked(open("ssh-cert:x", vec![])), Statement::Begin));
    match asked(open("ssh-pubkey:x", vec![Reply::Done])) {
        Statement::OpenSession {
            authentication_authority,
            quota_subject,
            ..
        } => {
            assert_eq!(authentication_authority, "openssh-public-key");
            assert_eq!(quota_subject, "team");
        }
        other => panic!("{other:?}"),
    }
    let row = || Reply::Session(Some(session_row("open", None)));
    assert!(matches!(
        asked(open("ssh-cert:x", vec![Reply::Done, row()])),
        Statement::Commit
    ));
    let session = finished(open("ssh-cert:x", vec![Reply::Done, row(), Reply::Done]));
    assert_eq!(session.state, ProtocolSessionState::Open);
    assert_eq!(
        session.authentication_authority,
        Some(AuthenticationAuthority::OpenSshCertificate)
    );
    for (credential, history, failure) in [
        ("password:x", vec![], ProtocolSessionFailure::Configuration),
        ("ssh-cert:", vec![], ProtocolSessionFailure::Configuration),
        ("ssh-cert:x", vec![Reply::Count(0)], ProtocolSessionFailure::Connection),
        ("ssh-cert:x", vec![Reply::Done, violation()], ProtocolSessionFailure::Conflict),
        ("ssh-cert:x", vec![Reply::Done, Reply::Done], ProtocolSessionFailure::Query),
        (
            "ssh-cert:x",
            vec![Reply::Done, row(), Reply::Failed(DatabaseFault::Other)],
            ProtocolSessionFailure::Commit,
        ),
    ] {
        assert_eq!(failed(open(credential, history)).failure(), failure);
    }
}

#[test]
fn only_an_open_session_is_closed() {
    let close = |history: Vec<Reply>| close_protocol_session(URL, &text("session"), &history);
    let closed = finished(close(vec![
        Reply::Done,
        Reply::Session(Some(session_row("closed", Some(10)))),
        Reply::Done,
    ]));
    assert_eq!((closed.state, closed.closed_at), (ProtocolSessionState::Closed, Some(10)));
    let unclosed = || vec![Reply::Done, Reply::Session(None)];
    assert!(matches!(asked(close(unclosed())), Statement::ReadSessionState { .. }));
    let mut missing = unclosed();
    missing.push(Reply::Text(None));
    assert_eq!(failed(close(missing)).failure(), ProtocolSessionFailure::NotFound);
    let mut ended = unclosed();
    ended.push(Reply::Text(Some(Some(text("closed")))));
    assert_eq!(failed(close(ended)).failure(), ProtocolSessionFailure::InvalidTransition);
}

#[test]
fn inconsistent_sessions_are_not_read() {
    let read = |row: SessionRow| {
        read_protocol_session(
            URL,
            &text("session"),
            &vec![Reply::Done, Reply::Session(Some(row))],
        )
    };
    assert!(finished(read(session_row("open", None))).is_some());
    let broken = [
        session_row("open", Some(11)),
        session_row("closed", Some(9)),
        session_row("closed", None),
        session_row("other", None),
        SessionRow {
            authentication_authority: Some(text("openssh-public-key")),
            ..session_row("open", None)
        },
        SessionRow {
            credential_id: None,
            ..session_row("open", None)
        },
        SessionRow {
            requester_reference: "A".repeat(64),
            ..session_row("open", None)
        },
    ];
    for row in broken {
        let error = failed(read(row));
        assert_eq!(error.failure(), ProtocolSessionFailure::Query);
        assert_eq!(error.failure().as_str(), "query");
        assert_eq!(error.message(), "protocol session state operation failed");
    }
    assert!(finished(read_protocol_session(
        URL,
        &text("session"),
        &vec![Reply::Done, Reply::Session(None)]
    ))
    .is_none());
}

#[test]
fn build_request_is_created_and_read() {
    let create = |path: &str, history: Vec<Reply>| {
        create_build_request(
            URL,
            &text("request"),
            &text(path),
            &text("x86_64-linux"),
            &text("auditor"),
            &text("team"),
            PATHS,
            &history,
        )
    };
    let row = || Reply::BuildRequest(Some(request_row()));
    assert!(matches!(
        asked(create("/nix/store/a.drv", vec![Reply::Done])),
        Statement::CreateBuildRequest { .. }
    ));
    let made = finished(create("/nix/store/a.drv", vec![Reply::Done, row(), Reply::Done]));
    assert_eq!(made.derivation_path, "/nix/store/a.drv");
    let long = "x".repeat(PATHS + 1);
    assert_eq!(failed(create(&long, vec![])).failure(), BuildRequestFailure::Configuration);
    assert_eq!(
        failed(create("/p", vec![Reply::Done, violation()])).failure(),
        BuildRequestFailure::Conflict
    );
    let read = |row: Option<BuildRequestRow>| {
        read_build_request(
            URL,
            &text("request"),
            PATHS,
            &vec![Reply::Done, Reply::BuildRequest(row)],
        )
    };
    assert!(finished(read(None)).is_none());
    let broken = BuildRequestRow {
        system: String::new(),
        ..request_row()
    };
    assert_eq!(failed(read(Some(broken))).failure(), BuildRequestFailure::Query);
}

#[test]
fn requests_are_attached_to_open_sessions() {
    let attach = |history: Vec<Reply>| {
        attach_request(URL, &text("session"), &text("request"), PATHS, &history)
    };
    let open = || Reply::Session(Some(session_row("open", None)));
    let request = || Reply::BuildRequest(Some(request_row()));
    assert!(matches!(asked(attach(vec![Reply::Done])), Statement::HoldSession { .. }));
    assert!(matches!(
        asked(attach(vec![Reply::Done, open()])),
        Statement::ReadBuildRequest { .. }
    ));
    assert!(matches!(
        asked(attach(vec![Reply::Done, open(), request()])),
        Statement::Attach { .. }
    ));
    let row = Reply::Attachment(Some(attachment_row("attached", None, None)));
    let attached = finished(attach(vec![Reply::Done, open(), request(), row, Reply::Done]));
    assert_eq!(attached.state, RequestAttachmentState::Attached);
    let closed = Reply::Session(Some(session_row("closed", Some(10))));
    for (history, failure) in [
        (vec![Reply::Done, Reply::Session(None)], RequestAttachmentFailure::Missing),
        (vec![Reply::Done, closed], RequestAttachmentFailure::InvalidState),
        (
            vec![Reply::Done, open(), Reply::BuildRequest(None)],
            RequestAttachmentFailure::Missing,
        ),
        (vec![Reply::Done, open(), request(), violation()], RequestAttachmentFailure::Conflict),
        (vec![Reply::Done, Reply::Done], RequestAttachmentFailure::Query),
    ] {
        assert_eq!(failed(attach(history)).failure(), failure);
    }
}

#[test]
fn attachments_end_once() {
    let detach = |history: Vec<Reply>| {
        detach_request(URL, &text("session"), &text("request"), &history)
    };
    let row = Reply::Attachment(Some(attachment_row("detached", Some(11), None)));
    let detached = finished(detach(vec![Reply::Done, row, Reply::Done]));
    assert_eq!(detached.state, RequestAttachmentState::Detached);
    for (state, failure) in [
        (Some(Some(text("delivered"))), RequestAttachmentFailure::InvalidState),
        (Some(Some(text("attached"))), RequestAttachmentFailure::Query),
        (Some(None), RequestAttachmentFailure::Query),
        (None, RequestAttachmentFailure::Missing),
    ] {
        let history = vec![Reply::Done, Reply::Attachment(None), Reply::Text(state)];
        assert_eq!(failed(detach(history)).failure(), failure);
    }
    let deliver = |history: Vec<Reply>| {
        complete_request_delivery(URL, &text("session"), &text("request"), &history)
    };
    assert!(matches!(asked(deliver(vec![Reply::Done])), Statement::DeliverAttached { .. }));
    let history = vec![
        Reply::Done,
        Reply::Attachment(None),
        Reply::Text(Some(None)),
    ];
    assert_eq!(failed(deliver(history)).failure(), RequestAttachmentFailure::InvalidState);
    let read = |row: AttachmentRow| {
        read_request_attachment(
            URL,
            &text("session"),
            &text("request"),
            &vec![Reply::Done, Reply::Attachment(Some(row))],
        )
    };
    assert!(finished(read(attachment_row("delivered", None, Some(10)))).is_some());
    for row in [
        attachment_row("detached", Some(9), None),
        attachment_row("detached", Some(11), Some(11)),
        attachment_row("attached", Some(11), None),
    ] {
        assert_eq!(failed(read(row)).failure(), RequestAttachmentFailure::Query);
    }
}

#[test]
fn nonces_are_reserved_while_there_is_room() {
    let reserve = |nonce: &str, maximum: usize, history: Vec<Reply>| {
        reserve_nomad_callback_nonce(
            URL,
            &text("cluster"),
            &text("job-1"),
            &text("allocation"),
            nonce,
            99,
            maximum,
            &history,
        )
    };
    let locked = || vec![Reply::Done, Reply::Done, Reply::Changed(3)];
    assert!(matches!(asked(reserve("n", 2, vec![Reply::Done])), Statement::LockCallbackNonces));
    let mut counted = locked();
    counted.push(Reply::Count(1));
    match asked(reserve("abc", 2, counted)) {
        Statement::InsertCallbackNonce {
            nonce_digest,
            expires_at,
            ..
        } => {
            let expected: [u8; 32] = sha2::Sha256::digest(b"abc").into();
            assert_eq!(nonce_digest, expected);
            assert_eq!(expires_at, 99);
        }
        other => panic!("{other:?}"),
    }
    let mut full = locked();
    full.push(Reply::Count(2));
    failed(reserve("abc", 2, full));
    for (inserted, new) in [(1, true), (0, false)] {
        let mut history = locked();
        history.extend([Reply::Count(0), Reply::Changed(inserted), Reply::Done]);
        assert_eq!(finished(reserve("abc", 2, history)), new);
    }
    let error = failed(reserve("", 2, vec![]));
    assert_eq!(error.message(), "Nomad callback replay persistence failed");
    failed(reserve("a\nb", 2, vec![]));
    failed(reserve("abc", 0, vec![]));
}

fn execution_row(state: &str, started_at: Option<i64>, completed_at: Option<i64>) -> LocalExecutionRow {
    LocalExecutionRow {
        backend_execution_id: text("execution"),
        idempotency_key: text("key"),
        specification_digest: vec![7; 32],
        state: text(state),
        created_at: 1,
        started_at,
        completed_at,
    }
}

fn result_row(classification: &str, metadata: &str) -> LocalResultRow {
    LocalResultRow {
        backend_execution_id: text("execution"),
        classification: text(classification),
        result_metadata: text(metadata),
        created_at: 2,
    }
}

#[test]
fn executions_are_registered_once() {
    let register = |key: &str, digest: u8, history: Vec<Reply>| {
        register_local_backend_execution(
            URL,
            &text("execution"),
            &text(key),
            &[digest; 32],
            &history,
        )
    };
    let accepted = || Reply::LocalExecution(Some(execution_row("accepted", None, None)));
    let again = finished(register("key", 7, vec![Reply::Done, accepted(), Reply::Done]));
    assert_eq!(again.state, LocalBackendExecutionState::Accepted);
    for (key, digest) in [("key", 8), ("other", 7)] {
        assert_eq!(
            failed(register(key, digest, vec![Reply::Done, accepted()])).failure(),
            LocalBackendExecutionFailure::Conflict
        );
    }
    let none = || vec![Reply::Done, Reply::LocalExecution(None)];
    assert!(matches!(
        asked(register("key", 7, none())),
        Statement::RegisterLocalExecution { .. }
    ));
    let mut raced = none();
    raced.push(violation());
    assert_eq!(
        failed(register("key", 7, raced)).failure(),
        LocalBackendExecutionFailure::Conflict
    );
    assert_eq!(
        failed(register("", 7, vec![])).failure(),
        LocalBackendExecutionFailure::Configuration
    );
    let running = record_local_backend_running(
        URL,
        &text("execution"),
        &vec![Reply::Done, Reply::LocalExecution(None)],
    );
    assert_eq!(failed(running).failure(), LocalBackendExecutionFailure::InvalidState);
}

#[test]
fn executions_end_once() {
    let complete = |state, classification: &str, metadata: &str, history: Vec<Reply>| {
        complete_local_backend_execution(
            URL,
            &text("execution"),
            state,
            &text(classification),
            &text(metadata),
            &history,
        )
    };
    let succeeded = LocalBackendExecutionState::Succeeded;
    let running = || Reply::LocalExecution(Some(execution_row("running", Some(1), None)));
    let ended = || Reply::LocalExecution(Some(execution_row("succeeded", Some(1), Some(2))));
    let result = |metadata: &str| Reply::LocalResult(Some(result_row("succeeded", metadata)));
    assert!(matches!(
        asked(complete(succeeded, "succeeded", "{\"a\":1}", vec![Reply::Done, running()])),
        Statement::InsertLocalResult { .. }
    ));
    match asked(complete(
        succeeded,
        "succeeded",
        "{\"a\":1}",
        vec![Reply::Done, running(), result("{\"a\": 1}")],
    )) {
        Statement::FinishRunningLocalExecution { state, .. } => assert_eq!(state, "succeeded"),
        other => panic!("{other:?}"),
    }
    let done = finished(complete(
        succeeded,
        "succeeded",
        "{\"a\":1}",
        vec![Reply::Done, running(), result("{\"a\": 1}"), ended(), Reply::Done],
    ));
    assert_eq!(done.execution.completed_at, Some(2));
    // The same end again, written in another way.
    let again = finished(complete(
        succeeded,
        "succeeded",
        "{\"a\":1,\"b\":[]}",
        vec![Reply::Done, ended(), result("{\"b\": [], \"a\": 1}"), Reply::Done],
    ));
    assert_eq!(again.execution.state, succeeded);
    assert_eq!(
        failed(complete(
            succeeded,
            "succeeded",
            "{\"a\":2}",
            vec![Reply::Done, ended(), result("{\"a\": 1}")],
        ))
        .failure(),
        LocalBackendExecutionFailure::Conflict
    );
    for (state, classification, metadata) in [
        (succeeded, "build-failure", "{}"),
        (LocalBackendExecutionState::Failed, "unknown", "{}"),
        (LocalBackendExecutionState::Cancelled, "succeeded", "{}"),
        (LocalBackendExecutionState::Running, "succeeded", "{}"),
        (succeeded, "succeeded", "[]"),
        (succeeded, "succeeded", "{"),
    ] {
        assert_eq!(
            failed(complete(state, classification, metadata, vec![])).failure(),
            LocalBackendExecutionFailure::Configuration
        );
    }
    let accepted = Reply::LocalExecution(Some(execution_row("accepted", None, None)));
    assert_eq!(
        failed(complete(succeeded, "succeeded", "{}", vec![Reply::Done, accepted])).failure(),
        LocalBackendExecutionFailure::InvalidState
    );
}

#[test]
fn executions_and_results_are_read() {
    let read = |row: LocalExecutionRow| {
        read_local_backend_execution(
            URL,
            &text("execution"),
            &vec![Reply::Done, Reply::LocalExecution(Some(row))],
        )
    };
    assert_eq!(
        finished(read(execution_row("cancelled", None, Some(3)))).unwrap().state,
        LocalBackendExecutionState::Cancelled
    );
    assert_eq!(
        failed(read(execution_row("running", None, None))).failure(),
        LocalBackendExecutionFailure::Query
    );
    let short = LocalExecutionRow {
        specification_digest: vec![1; 31],
        ..execution_row("accepted", None, None)
    };
    assert_eq!(failed(read(short)).failure(), LocalBackendExecutionFailure::Query);
    let result = |row| {
        read_local_backend_execution_result(
            URL,
            &text("execution"),
            &vec![Reply::Done, Reply::LocalResult(row)],
        )
    };
    assert!(finished(result(None)).is_none());
    assert_eq!(
        failed(result(Some(result_row("succeeded", "7")))).failure(),
        LocalBackendExecutionFailure::Query
    );
}

fn queued_row(state: &str, queued_at: Option<i64>) -> QueuedRequestRow {
    QueuedRequestRow {
        request_id: text("request"),
        derivation_path: text("/nix/store/a.drv"),
        system: text("x86_64-linux"),
        queue_state: text(state),
        queued_at,
        audit_subject: text("auditor"),
        quota_subject: text("team"),
        created_at: 1,
    }
}

#[test]
fn requests_are_queued_with_their_leases() {
    let queue = |history: Vec<Reply>| queue_build_request(URL, &text("request"), PATHS, &history);
    let accepted = || Reply::QueuedRequest(Some(queued_row("accepted", None)));
    assert!(matches!(
        asked(queue(vec![Reply::Done, accepted()])),
        Statement::CountRequiredLeases { .. }
    ));
    assert_eq!(
        failed(queue(vec![Reply::Done, accepted(), Reply::Count(1)])).failure(),
        BuildRequestFailure::InvalidState
    );
    let queued = finished(queue(vec![
        Reply::Done,
        accepted(),
        Reply::Count(2),
        Reply::QueuedRequest(Some(queued_row("queued", Some(5)))),
        Reply::Done,
    ]));
    assert_eq!(queued.queue_state, BuildQueueState::Queued);
    let running = Reply::QueuedRequest(Some(queued_row("running", Some(5))));
    assert_eq!(
        failed(queue(vec![Reply::Done, running])).failure(),
        BuildRequestFailure::InvalidState
    );
    let found = finished(recover_queued_build_requests(
        URL,
        256,
        PATHS,
        &vec![
            Reply::Done,
            Reply::QueuedRequests(vec![queued_row("queued", Some(1)), queued_row("completed", None)]),
        ],
    ));
    assert_eq!(found.len(), 2);
    assert_eq!(
        failed(recover_queued_build_requests(
            URL,
            256,
            PATHS,
            &vec![Reply::Done, Reply::QueuedRequests(vec![queued_row("queued", None)])],
        ))
        .failure(),
        BuildRequestFailure::Query
    );
    assert_eq!(
        failed(recover_queued_build_requests(URL, 257, PATHS, &vec![])).failure(),
        BuildRequestFailure::Configuration
    );
}
