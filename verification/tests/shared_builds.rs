use telchar::backend::{
    BackendCapabilities, CancellationCapability, CapabilityTable, ExecutionRecovery, LogRecovery,
};
use telchar::persistence::database::{
    DatabaseFault, QueueEntryRow, Reply, RequestedBuild, SharedAttemptRow, SharedBuildRow,
    SharedOutcomeRow, Statement, Step, WorkerLimits,
};
use telchar::persistence::shared_builds::{
    claim_shared_build, claim_shared_build_with_request, collect_shared_build,
    complete_shared_build_failure, complete_shared_build_success, decode_shared_build,
    enqueue_shared_build, read_active_shared_builds, read_next_queued_shared_build,
    read_queued_shared_builds, read_shared_build, read_shared_build_attempt,
    read_shared_build_attempt_outcome, read_shared_build_by_execution,
    read_shared_build_operational_counts, read_shared_build_scheduler_subject,
    record_shared_build_scheduler_subject, start_queued_shared_build, start_shared_build,
    SharedBuildAttemptState, SharedBuildError, SharedBuildFailure, SharedBuildOwnership,
    SharedBuildRules, SharedBuildState,
};
use telchar::service::config::model::BackendKind;
use telchar::time::Span;

const URL: &str = "postgres://db";

fn text(value: &str) -> String {
    value.to_string()
}

fn lasting() -> BackendCapabilities {
    BackendCapabilities::new(
        ExecutionRecovery::Adoptable,
        CancellationCapability::Explicit,
        LogRecovery::Replayable,
    )
}

fn fleeting() -> BackendCapabilities {
    BackendCapabilities::new(
        ExecutionRecovery::OutputOnly,
        CancellationCapability::ConnectionBound,
        LogRecovery::LiveOnly,
    )
}

fn rules() -> SharedBuildRules {
    SharedBuildRules {
        limits: WorkerLimits {
            maximum_store_path_bytes: 256,
            maximum_input_sources: 4,
            maximum_outputs: 4,
        },
        capabilities: CapabilityTable {
            local: lasting(),
            static_ssh: fleeting(),
            nomad: lasting(),
        },
    }
}

fn row(state: &str) -> SharedBuildRow {
    let ended = state == "succeeded" || state == "failed";
    SharedBuildRow {
        derivation_path: text("/nix/store/a.drv"),
        request_digest: vec![7; 32],
        state: text(state),
        backend_name: text("local"),
        backend_kind: text("local"),
        execution_recovery: text("adoptable"),
        cancellation: text("explicit"),
        log_recovery: text("replayable"),
        backend_execution_id: Some(text("execution")),
        expected_outputs: vec![text("/nix/store/out")],
        build_request: None,
        result_metadata: if ended { Some(text("{\"a\":1}")) } else { None },
        failure_classification: if state == "failed" { Some(text("build-failure")) } else { None },
        created_at: 1,
        started_at: None,
        collecting_at: None,
        completed_at: if ended { Some(2) } else { None },
        expires_at: if ended { Some(3) } else { None },
    }
}

fn build(state: &str) -> Reply {
    Reply::SharedBuild(Some(row(state)))
}

fn request() -> RequestedBuild {
    RequestedBuild {
        text: text("{\"request\":1}"),
        executable: true,
        derivation_path: text("/nix/store/a.drv"),
        digest: [7; 32],
        output_paths: vec![text("/nix/store/out")],
    }
}

fn attempt(state: &str) -> Reply {
    Reply::SharedAttempt(Some(SharedAttemptRow {
        attempt_id: 5,
        derivation_path: text("/nix/store/a.drv"),
        ordinal: 2,
        backend_name: text("local"),
        backend_kind: text("local"),
        backend_execution_id: None,
        state: text(state),
        created_at: 1,
        started_at: None,
        collecting_at: None,
        completed_at: None,
    }))
}

fn entry(subject: &str) -> QueueEntryRow {
    QueueEntryRow {
        derivation_path: format!("/nix/store/{subject}.drv"),
        quota_subject: text(subject),
        queue_position: 1,
        queued_at: 5,
    }
}

fn failure<T: std::fmt::Debug>(step: Step<T, SharedBuildError>) -> SharedBuildFailure {
    match step {
        Step::Finish(Err(error)) => error.failure(),
        other => panic!("{other:?}"),
    }
}

fn finished<T: std::fmt::Debug>(step: Step<T, SharedBuildError>) -> T {
    match step {
        Step::Finish(Ok(value)) => value,
        other => panic!("{other:?}"),
    }
}

fn asked<T: std::fmt::Debug>(step: Step<T, SharedBuildError>) -> Statement {
    match step {
        Step::Perform(statement) => statement,
        other => panic!("{other:?}"),
    }
}

#[test]
fn builds_are_decoded() {
    for (state, expected) in [
        ("claimed", SharedBuildState::Claimed),
        ("running", SharedBuildState::Running),
        ("collecting", SharedBuildState::Collecting),
        ("succeeded", SharedBuildState::Succeeded),
        ("failed", SharedBuildState::Failed),
    ] {
        let read = decode_shared_build(&row(state), &rules()).unwrap();
        assert_eq!(read.state, expected);
        assert_eq!(read.request_digest, [7; 32]);
        assert_eq!(read.expected_outputs, vec![text("/nix/store/out")]);
    }
    let asked_for = SharedBuildRow {
        build_request: Some(request()),
        ..row("claimed")
    };
    let read = decode_shared_build(&asked_for, &rules()).unwrap();
    assert_eq!(read.build_request.unwrap().text, "{\"request\":1}");
    let other = |change: fn(&mut RequestedBuild)| {
        let mut request = request();
        change(&mut request);
        SharedBuildRow {
            build_request: Some(request),
            ..row("claimed")
        }
    };
    let twice = vec![text("/nix/store/out"), text("/nix/store/out")];
    let broken = [
        SharedBuildRow { request_digest: vec![7; 31], ..row("claimed") },
        SharedBuildRow { backend_kind: text("docker"), ..row("claimed") },
        SharedBuildRow { backend_kind: text("static-ssh"), ..row("claimed") },
        SharedBuildRow { log_recovery: text("live-only"), ..row("claimed") },
        SharedBuildRow { backend_execution_id: None, ..row("claimed") },
        SharedBuildRow { expected_outputs: vec![], ..row("claimed") },
        SharedBuildRow { expected_outputs: twice, ..row("claimed") },
        SharedBuildRow { result_metadata: None, ..row("succeeded") },
        SharedBuildRow { result_metadata: Some(text("[]")), ..row("succeeded") },
        SharedBuildRow { failure_classification: Some(text("x")), ..row("succeeded") },
        SharedBuildRow { failure_classification: None, ..row("failed") },
        SharedBuildRow { completed_at: Some(2), ..row("running") },
        row("lost"),
        other(|request| request.executable = false),
        other(|request| request.digest = [8; 32]),
        other(|request| request.output_paths = vec![]),
        other(|request| request.derivation_path = "/nix/store/b.drv".into()),
    ];
    for row in broken {
        assert_eq!(
            decode_shared_build(&row, &rules()).unwrap_err(),
            SharedBuildFailure::Query
        );
    }
}

#[test]
fn builds_are_claimed_or_joined() {
    let claim = |outputs: Vec<String>, digest: u8, history: Vec<Reply>| {
        claim_shared_build(
            URL,
            &text("/nix/store/a.drv"),
            &[digest; 32],
            &text("local"),
            BackendKind::Local,
            lasting(),
            &Some(text("execution")),
            &outputs,
            &rules(),
            &history,
        )
    };
    let outputs = || vec![text("/nix/store/out")];
    match asked(claim(outputs(), 7, vec![Reply::Done])) {
        Statement::ClaimSharedBuild {
            backend_kind,
            execution_recovery,
            cancellation,
            log_recovery,
            build_request,
            ..
        } => {
            assert_eq!(
                (backend_kind, execution_recovery, cancellation, log_recovery),
                ("local", "adoptable", "explicit", "replayable")
            );
            assert_eq!(build_request, None);
        }
        other => panic!("{other:?}"),
    }
    for (inserted, ownership) in [
        (true, SharedBuildOwnership::Claimed),
        (false, SharedBuildOwnership::Joined),
    ] {
        let history = vec![Reply::Done, Reply::Found(inserted), build("claimed"), Reply::Done];
        assert_eq!(finished(claim(outputs(), 7, history)).ownership, ownership);
    }
    let joined = || vec![Reply::Done, Reply::Found(false), build("claimed")];
    assert_eq!(failure(claim(outputs(), 8, joined())), SharedBuildFailure::Conflict);
    let other = vec![text("/nix/store/other")];
    assert_eq!(failure(claim(other, 7, joined())), SharedBuildFailure::Conflict);
    assert_eq!(failure(claim(vec![], 7, vec![])), SharedBuildFailure::Configuration);
    let with_request = |request: RequestedBuild, history: Vec<Reply>| {
        claim_shared_build_with_request(
            URL,
            &text("/nix/store/a.drv"),
            &[7; 32],
            &text("local"),
            BackendKind::Local,
            lasting(),
            &Some(text("execution")),
            &vec![text("/nix/store/out")],
            &request,
            &rules(),
            &history,
        )
    };
    assert!(matches!(
        asked(with_request(request(), vec![Reply::Done])),
        Statement::ClaimSharedBuild { build_request: Some(text), .. } if text == "{\"request\":1}"
    ));
    let other = RequestedBuild {
        digest: [8; 32],
        ..request()
    };
    assert_eq!(failure(with_request(other, vec![])), SharedBuildFailure::Configuration);
}

#[test]
fn quotas_hold_queue_and_runs() {
    let enqueue = |maximum: usize, history: Vec<Reply>| {
        enqueue_shared_build(
            URL,
            &text("/nix/store/a.drv"),
            &text("team"),
            maximum,
            &rules(),
            &history,
        )
    };
    let counted = |count| vec![Reply::Done, Reply::Done, Reply::Count(count)];
    assert!(matches!(
        asked(enqueue(2, counted(1))),
        Statement::EnqueueSharedBuild { quota_subject, .. } if quota_subject == "team"
    ));
    assert_eq!(failure(enqueue(2, counted(2))), SharedBuildFailure::Quota);
    assert_eq!(failure(enqueue(0, vec![])), SharedBuildFailure::Configuration);
    assert_eq!(failure(enqueue(65_537, vec![])), SharedBuildFailure::Configuration);
    let mut gone = counted(0);
    gone.push(Reply::QueueEntry(None));
    assert_eq!(failure(enqueue(2, gone)), SharedBuildFailure::InvalidState);
    let mut queued = counted(0);
    queued.extend([Reply::QueueEntry(Some(entry("team"))), Reply::Done]);
    assert_eq!(finished(enqueue(2, queued)).queue_position, 1);

    let start = |history: Vec<Reply>| {
        start_queued_shared_build(URL, &text("/nix/store/a.drv"), 2, &rules(), &history)
    };
    let locked = |count| {
        vec![
            Reply::Done,
            Reply::Text(Some(Some(text("team")))),
            Reply::Done,
            Reply::Count(count),
        ]
    };
    assert_eq!(failure(start(locked(2))), SharedBuildFailure::Quota);
    assert!(matches!(asked(start(locked(1))), Statement::StartClaimedSharedBuild { .. }));
    let mut running = locked(1);
    running.push(build("running"));
    assert!(matches!(asked(start(running)), Statement::ReadNextAttemptOrdinal { .. }));
    let mut running = locked(1);
    running.extend([build("running"), Reply::Ordinal(3)]);
    assert!(matches!(
        asked(start(running)),
        Statement::InsertRunningAttempt { ordinal: 3, backend_kind: "local", .. }
    ));
    let mut running = locked(1);
    running.extend([build("running"), Reply::Ordinal(3), attempt("running"), Reply::Done]);
    assert_eq!(finished(start(running)).state, SharedBuildState::Running);
    assert_eq!(
        failure(start(vec![Reply::Done, Reply::Text(None)])),
        SharedBuildFailure::InvalidState
    );
}

#[test]
fn subjects_take_turns_in_order() {
    let next = |after: Option<&str>, subjects: &[&str]| {
        let rows = subjects.iter().map(|subject| entry(subject)).collect();
        finished(read_next_queued_shared_build(
            URL,
            &after.map(text),
            256,
            &vec![Reply::Done, Reply::QueueEntries(rows)],
        ))
        .map(|entry| entry.quota_subject)
    };
    let subjects = ["carol", "alice", "bob"];
    assert_eq!(next(None, &subjects), Some(text("alice")));
    assert_eq!(next(Some("alice"), &subjects), Some(text("bob")));
    assert_eq!(next(Some("bob"), &subjects), Some(text("carol")));
    assert_eq!(next(Some("carol"), &subjects), Some(text("alice")));
    assert_eq!(next(Some("zoe"), &subjects), Some(text("alice")));
    assert_eq!(next(Some("bob"), &["bob"]), Some(text("bob")));
    assert_eq!(next(Some("bob"), &[]), None);
    assert_eq!(
        failure(read_next_queued_shared_build(URL, &None, 257, &vec![])),
        SharedBuildFailure::Configuration
    );
    let subject = |reply| read_shared_build_scheduler_subject(URL, &vec![Reply::Done, reply]);
    assert_eq!(finished(subject(Reply::Text(Some(Some(text("bob")))))), Some(text("bob")));
    assert_eq!(finished(subject(Reply::Text(Some(None)))), None);
    assert_eq!(failure(subject(Reply::Text(None))), SharedBuildFailure::Query);
    let record = |subject: &str, history: Vec<Reply>| {
        record_shared_build_scheduler_subject(URL, &text(subject), &history)
    };
    assert!(matches!(
        asked(record("bob", vec![Reply::Done])),
        Statement::RecordSchedulerSubject { .. }
    ));
    finished(record("bob", vec![Reply::Done, Reply::Changed(1)]));
    assert_eq!(failure(record("", vec![])), SharedBuildFailure::Configuration);
}

#[test]
fn builds_collect_and_end_once() {
    let path = text("/nix/store/a.drv");
    let collect = |history: Vec<Reply>| collect_shared_build(URL, &path, &rules(), &history);
    assert!(matches!(
        asked(collect(vec![Reply::Done, build("collecting")])),
        Statement::CollectRunningAttempts { .. }
    ));
    assert_eq!(
        failure(collect(vec![Reply::Done, build("collecting"), Reply::Changed(0)])),
        SharedBuildFailure::InvalidState
    );
    let collected = collect(vec![
        Reply::Done,
        build("collecting"),
        Reply::Changed(1),
        Reply::Done,
    ]);
    assert_eq!(finished(collected).state, SharedBuildState::Collecting);
    assert!(matches!(
        asked(start_shared_build(URL, &path, &rules(), &vec![Reply::Done])),
        Statement::StartClaimedSharedBuild { .. }
    ));

    let state = |name: &str| Reply::Text(Some(Some(text(name))));
    let succeed = |seconds: u64, metadata: &str, history: Vec<Reply>| {
        complete_shared_build_success(
            URL,
            &path,
            &text(metadata),
            &Span::from_seconds(seconds),
            &rules(),
            &history,
        )
    };
    for current in ["claimed", "running", "succeeded", "failed"] {
        assert_eq!(
            failure(succeed(60, "{}", vec![Reply::Done, state(current)])),
            SharedBuildFailure::InvalidState
        );
    }
    match asked(succeed(60, "{\"a\":1}", vec![Reply::Done, state("collecting")])) {
        Statement::CompleteSharedBuild {
            state,
            failure_classification,
            expires_after_seconds,
            ..
        } => {
            assert_eq!((state, expires_after_seconds), ("succeeded", 60));
            assert_eq!(failure_classification, None);
        }
        other => panic!("{other:?}"),
    }
    let ending = || vec![Reply::Done, state("collecting"), build("succeeded")];
    let mut attempted = ending();
    attempted.push(Reply::AttemptId(Some(5)));
    assert!(matches!(
        asked(succeed(60, "{\"a\":1}", attempted)),
        Statement::InsertAttemptOutcome { attempt_id: 5, classification, .. }
            if classification == "succeeded"
    ));
    let mut lost = ending();
    lost.push(Reply::AttemptId(None));
    assert_eq!(failure(succeed(60, "{\"a\":1}", lost)), SharedBuildFailure::InvalidState);
    let mut ended = ending();
    ended.extend([Reply::AttemptId(Some(5)), Reply::Changed(1), Reply::Done]);
    assert_eq!(finished(succeed(60, "{\"a\":1}", ended)).state, SharedBuildState::Succeeded);
    assert_eq!(failure(succeed(60, "[]", vec![])), SharedBuildFailure::Configuration);
    assert_eq!(failure(succeed(0, "{}", vec![])), SharedBuildFailure::Configuration);

    let fail = |classification: &str, history: Vec<Reply>| {
        complete_shared_build_failure(
            URL,
            &path,
            &text(classification),
            &text("{}"),
            &Span::from_seconds(60),
            &rules(),
            &history,
        )
    };
    // A build that never started ends without an attempt.
    let claimed = fail(
        "build-failure",
        vec![Reply::Done, state("claimed"), build("failed"), Reply::Done],
    );
    assert_eq!(finished(claimed).failure_classification, Some(text("build-failure")));
    let running = vec![Reply::Done, state("running"), build("failed")];
    assert!(matches!(
        asked(fail("build-failure", running)),
        Statement::CompleteActiveAttempt { state: "failed", .. }
    ));
    assert_eq!(failure(fail("", vec![])), SharedBuildFailure::Configuration);
}

#[test]
fn builds_are_read() {
    let path = text("/nix/store/a.drv");
    let read = |reply| read_shared_build(URL, &path, &rules(), &vec![Reply::Done, reply]);
    assert!(finished(read(Reply::SharedBuild(None))).is_none());
    assert_eq!(finished(read(build("running"))).unwrap().state, SharedBuildState::Running);
    assert_eq!(
        failure(read(Reply::Failed(DatabaseFault::Other))),
        SharedBuildFailure::Query
    );
    assert!(matches!(
        asked(read_shared_build_by_execution(
            URL,
            &text("local"),
            &text("execution"),
            &rules(),
            &vec![Reply::Done]
        )),
        Statement::ReadSharedBuildByExecution { .. }
    ));
    let active = read_active_shared_builds(
        URL,
        256,
        &rules(),
        &vec![Reply::Done, Reply::SharedBuilds(vec![row("claimed"), row("running")])],
    );
    assert_eq!(finished(active).len(), 2);
    let counts = |queued| {
        read_shared_build_operational_counts(
            URL,
            &vec![Reply::Done, Reply::Counts(queued, 2, 3)],
        )
    };
    let read = finished(counts(1));
    assert_eq!((read.queued, read.running, read.collecting), (1, 2, 3));
    assert_eq!(failure(counts(-1)), SharedBuildFailure::Query);
    let queued = read_queued_shared_builds(
        URL,
        2,
        &vec![Reply::Done, Reply::QueueEntries(vec![entry("a"), entry("b")])],
    );
    assert_eq!(finished(queued)[1].quota_subject, "b");
    let latest = read_shared_build_attempt(
        URL,
        &path,
        &rules(),
        &vec![Reply::Done, attempt("collecting")],
    );
    assert_eq!(finished(latest).unwrap().state, SharedBuildAttemptState::Collecting);
    let outcome = |metadata: &str| {
        read_shared_build_attempt_outcome(
            URL,
            5,
            &vec![
                Reply::Done,
                Reply::SharedOutcome(Some(SharedOutcomeRow {
                    attempt_id: 5,
                    classification: text("succeeded"),
                    result_metadata: text(metadata),
                    created_at: 1,
                })),
            ],
        )
    };
    assert_eq!(finished(outcome("{}")).unwrap().classification, "succeeded");
    assert_eq!(failure(outcome("1")), SharedBuildFailure::Query);
}

#[test]
fn shared_build_failures_have_names() {
    let names: Vec<&str> = [
        SharedBuildFailure::Configuration,
        SharedBuildFailure::Connection,
        SharedBuildFailure::Conflict,
        SharedBuildFailure::InvalidState,
        SharedBuildFailure::Quota,
        SharedBuildFailure::Query,
        SharedBuildFailure::Commit,
    ]
    .into_iter()
    .map(|failure| failure.as_str())
    .collect();
    assert_eq!(
        names,
        ["configuration", "connection", "conflict", "invalid_state", "quota", "query", "commit"]
    );
    let read = |history: Vec<Reply>| {
        start_shared_build(URL, &text("/nix/store/a.drv"), &rules(), &history)
    };
    assert_eq!(failure(read(vec![Reply::Count(1)])), SharedBuildFailure::Connection);
    let uncommitted = vec![
        Reply::Done,
        build("running"),
        Reply::Ordinal(1),
        attempt("running"),
        Reply::Failed(DatabaseFault::Other),
    ];
    assert_eq!(failure(read(uncommitted)), SharedBuildFailure::Commit);
}
