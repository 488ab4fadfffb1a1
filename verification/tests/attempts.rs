use telchar::persistence::attempts::{
    complete_execution_failure, complete_execution_success, create_execution_attempt,
    decode_execution_attempt, dispatch_build_request, read_execution_attempt,
    recover_backend_pending_attempts, recover_collecting_attempts, recover_dispatching_attempts,
    recover_running_attempts, record_backend_completed, record_backend_running,
    record_backend_submission, CapacityReservationPhase, ExecutionAttemptError,
    ExecutionAttemptFailure, ExecutionAttemptState,
};
use telchar::persistence::database::{
    AttemptRow, DatabaseFault, LocalResultRow, OutcomeRow, QueuedRequestRow, Reply,
    ReservationRow, Statement, Step,
};
use telchar::persistence::outcomes::{
    create_execution_outcome, read_execution_outcome, ExecutionOutcomeFailure,
};
use telchar::persistence::queue::BuildQueueState;

const URL: &str = "postgres://db";
const PATHS: usize = 4096;

fn text(value: &str) -> String {
    value.to_string()
}

fn failure<T: std::fmt::Debug>(step: Step<T, ExecutionAttemptError>) -> ExecutionAttemptFailure {
    match step {
        Step::Finish(Err(error)) => error.failure(),
        other => panic!("{other:?}"),
    }
}

fn finished<T: std::fmt::Debug>(step: Step<T, ExecutionAttemptError>) -> T {
    match step {
        Step::Finish(Ok(value)) => value,
        other => panic!("{other:?}"),
    }
}

fn asked<T: std::fmt::Debug>(step: Step<T, ExecutionAttemptError>) -> Statement {
    match step {
        Step::Perform(statement) => statement,
        other => panic!("{other:?}"),
    }
}

fn attempt_row(state: &str) -> AttemptRow {
    let after = |states: &[&str], moment| states.contains(&state).then_some(moment);
    AttemptRow {
        attempt_id: text("attempt"),
        request_id: text("request"),
        ordinal: 1,
        idempotency_key: text("key"),
        backend: text("local"),
        backend_execution_id: None,
        state: text(state),
        created_at: 1,
        submitted_at: after(&["backend-pending", "running", "collecting"], 2),
        started_at: after(&["running", "collecting"], 3),
        collecting_at: after(&["collecting"], 4),
        completed_at: after(&["succeeded", "failed", "cancelled"], 5),
        fenced_at: after(&["reconciling"], 6),
    }
}

fn attempt(state: &str) -> Reply {
    Reply::Attempt(Some(attempt_row(state)))
}

fn request(state: &str) -> Reply {
    Reply::QueuedRequest(Some(QueuedRequestRow {
        request_id: text("request"),
        derivation_path: text("/nix/store/a.drv"),
        system: text("x86_64-linux"),
        queue_state: text(state),
        queued_at: Some(2),
        audit_subject: text("auditor"),
        quota_subject: text("team"),
        created_at: 1,
    }))
}

fn reservation(phase: &str, released_at: Option<i64>) -> Reply {
    Reply::Reservation(Some(ReservationRow {
        reservation_id: text("reservation"),
        attempt_id: text("attempt"),
        phase: text(phase),
        quota_subject: text("team"),
        units: 1,
        created_at: 1,
        released_at,
    }))
}

fn outcome(classification: &str, metadata: &str) -> Reply {
    Reply::Outcome(Some(OutcomeRow {
        attempt_id: text("attempt"),
        classification: text(classification),
        result_metadata: text(metadata),
        created_at: 5,
    }))
}

fn violation() -> Reply {
    Reply::Failed(DatabaseFault::UniqueViolation)
}

#[test]
fn attempts_are_recorded_and_read() {
    let create = |ordinal: i32, history: Vec<Reply>| {
        create_execution_attempt(
            URL,
            &text("attempt"),
            &text("request"),
            ordinal,
            &text("key"),
            &text("local"),
            &history,
        )
    };
    assert!(matches!(
        asked(create(1, vec![Reply::Done])),
        Statement::InsertAttempt { ordinal: 1, .. }
    ));
    let made = finished(create(1, vec![Reply::Done, attempt("dispatching"), Reply::Done]));
    assert_eq!(made.state, ExecutionAttemptState::Dispatching);
    assert_eq!(failure(create(0, vec![])), ExecutionAttemptFailure::Configuration);
    assert_eq!(
        failure(create(1, vec![Reply::Done, violation()])),
        ExecutionAttemptFailure::Conflict
    );
    assert_eq!(failure(create(1, vec![violation()])), ExecutionAttemptFailure::Connection);
    assert_eq!(
        failure(create(1, vec![Reply::Done, attempt("dispatching"), violation()])),
        ExecutionAttemptFailure::Commit
    );
    let read = |reply| read_execution_attempt(URL, &text("attempt"), &vec![Reply::Done, reply]);
    assert!(finished(read(Reply::Attempt(None))).is_none());
    assert!(finished(read(attempt("cancelled"))).is_some());
    for (state, expected) in [
        ("dispatching", ExecutionAttemptState::Dispatching),
        ("reconciling", ExecutionAttemptState::Reconciling),
        ("backend-pending", ExecutionAttemptState::BackendPending),
        ("running", ExecutionAttemptState::Running),
        ("collecting", ExecutionAttemptState::Collecting),
        ("succeeded", ExecutionAttemptState::Succeeded),
        ("failed", ExecutionAttemptState::Failed),
        ("cancelled", ExecutionAttemptState::Cancelled),
    ] {
        assert_eq!(decode_execution_attempt(&attempt_row(state)).unwrap().state, expected);
    }
    let broken = [
        AttemptRow { submitted_at: Some(2), ..attempt_row("dispatching") },
        AttemptRow { fenced_at: None, ..attempt_row("reconciling") },
        AttemptRow { started_at: None, ..attempt_row("running") },
        AttemptRow { completed_at: None, ..attempt_row("failed") },
        AttemptRow { backend_execution_id: Some(text("")), ..attempt_row("failed") },
        AttemptRow { ordinal: 0, ..attempt_row("failed") },
    ];
    for row in broken {
        assert_eq!(
            decode_execution_attempt(&row).unwrap_err(),
            ExecutionAttemptFailure::Query
        );
    }
}

#[test]
fn queued_requests_are_dispatched() {
    let dispatch = |units: i32, history: Vec<Reply>| {
        dispatch_build_request(
            URL,
            &text("request"),
            &text("attempt"),
            1,
            &text("key"),
            &text("local"),
            &text("reservation"),
            units,
            PATHS,
            &history,
        )
    };
    assert_eq!(failure(dispatch(0, vec![])), ExecutionAttemptFailure::Configuration);
    assert!(matches!(
        asked(dispatch(1, vec![Reply::Done])),
        Statement::LockQueuedRequest { .. }
    ));
    assert_eq!(
        failure(dispatch(1, vec![Reply::Done, request("running")])),
        ExecutionAttemptFailure::InvalidState
    );
    let inserted = || vec![Reply::Done, request("queued"), attempt("dispatching")];
    assert!(matches!(
        asked(dispatch(1, inserted())),
        Statement::InsertReservation { quota_subject, units: 1, .. } if quota_subject == "team"
    ));
    let mut reserved = inserted();
    reserved.push(reservation("dispatching", None));
    assert!(matches!(
        asked(dispatch(1, reserved)),
        Statement::MoveRequest { from: "queued", to: "dispatching", .. }
    ));
    let mut done = inserted();
    done.extend([reservation("dispatching", None), request("dispatching"), Reply::Done]);
    let dispatched = finished(dispatch(1, done));
    assert_eq!(dispatched.request.queue_state, BuildQueueState::Dispatching);
    assert_eq!(dispatched.reservation.phase, CapacityReservationPhase::Dispatching);
}

#[test]
fn request_attempt_and_reservation_move_in_step() {
    let submission = record_backend_submission(
        URL,
        &text("attempt"),
        &text("execution"),
        PATHS,
        &vec![
            Reply::Done,
            attempt("dispatching"),
            request("dispatching"),
            reservation("backend-pending", None),
        ],
    );
    assert!(matches!(
        asked(submission),
        Statement::MoveAttempt {
            from: "dispatching",
            to: "backend-pending",
            backend_execution_id: Some(execution),
            ..
        } if execution == "execution"
    ));
    let running = |history: Vec<Reply>| {
        record_backend_running(URL, &text("attempt"), PATHS, &history)
    };
    let pending = || vec![Reply::Done, attempt("backend-pending"), request("backend-pending")];
    assert!(matches!(
        asked(running(pending())),
        Statement::MoveReservation { from: "backend-pending", to: "running", .. }
    ));
    let mut moved = pending();
    moved.extend([
        reservation("running", None),
        attempt("running"),
        request("running"),
        Reply::Done,
    ]);
    assert_eq!(finished(running(moved)).attempt.state, ExecutionAttemptState::Running);
    assert_eq!(
        failure(running(vec![Reply::Done, attempt("running")])),
        ExecutionAttemptFailure::InvalidState
    );
    assert_eq!(
        failure(running(vec![Reply::Done, attempt("backend-pending"), request("running")])),
        ExecutionAttemptFailure::InvalidState
    );
    let completed = record_backend_completed(
        URL,
        &text("attempt"),
        PATHS,
        &vec![Reply::Done, attempt("running"), request("running")],
    );
    assert!(matches!(
        asked(completed),
        Statement::MoveReservation { from: "running", to: "collecting", .. }
    ));
}

#[test]
fn attempts_are_recovered() {
    let fence = |history: Vec<Reply>| recover_dispatching_attempts(URL, 256, PATHS, &history);
    let found = || vec![Reply::Done, Reply::Attempts(vec![attempt_row("dispatching")])];
    assert!(matches!(asked(fence(found())), Statement::LockQueuedRequest { .. }));
    let mut locked = found();
    locked.push(request("dispatching"));
    assert!(matches!(
        asked(fence(locked)),
        Statement::ReleaseReservation { phase: "dispatching", .. }
    ));
    let mut fenced = found();
    fenced.extend([
        request("dispatching"),
        reservation("dispatching", Some(6)),
        attempt("reconciling"),
        request("reconciling"),
        Reply::Done,
    ]);
    let fenced = finished(fence(fenced));
    assert_eq!(fenced[0].attempt.state, ExecutionAttemptState::Reconciling);
    let mut moved_on = found();
    moved_on.push(request("running"));
    assert_eq!(failure(fence(moved_on)), ExecutionAttemptFailure::InvalidState);
    assert_eq!(
        failure(recover_dispatching_attempts(URL, 257, PATHS, &vec![])),
        ExecutionAttemptFailure::Configuration
    );
    let pending = recover_backend_pending_attempts(
        URL,
        256,
        PATHS,
        &vec![Reply::Done, Reply::Attempts(vec![attempt_row("backend-pending")])],
    );
    assert!(matches!(
        asked(pending),
        Statement::LockQueuedRequestIn { queue_state: "backend-pending", .. }
    ));
    let running = recover_running_attempts(
        URL,
        256,
        PATHS,
        &vec![
            Reply::Done,
            Reply::Attempts(vec![attempt_row("running"), attempt_row("running")]),
            request("running"),
            reservation("running", None),
            request("running"),
            reservation("running", None),
            Reply::Done,
        ],
    );
    assert_eq!(finished(running).len(), 2);
    let result = |metadata: &str| LocalResultRow {
        backend_execution_id: text("execution"),
        classification: text("succeeded"),
        result_metadata: text(metadata),
        created_at: 4,
    };
    let collecting = |metadata: &str| {
        recover_collecting_attempts(
            URL,
            256,
            PATHS,
            &vec![
                Reply::Done,
                Reply::CollectingAttempts(vec![(attempt_row("collecting"), result(metadata))]),
                request("collecting"),
                reservation("collecting", None),
                Reply::Done,
            ],
        )
    };
    assert_eq!(finished(collecting("{}"))[0].backend_result.classification, "succeeded");
    assert_eq!(failure(collecting("1")), ExecutionAttemptFailure::Query);
}

#[test]
fn attempts_fail_in_any_phase() {
    let fail = |classification: &str, metadata: &str, history: Vec<Reply>| {
        complete_execution_failure(
            URL,
            &text("attempt"),
            &text(classification),
            &text(metadata),
            PATHS,
            &history,
        )
    };
    for (classification, metadata) in
        [("succeeded", "{}"), ("unknown", "{}"), ("build-failure", "[]"), ("build-failure", "")]
    {
        assert_eq!(
            failure(fail(classification, metadata, vec![])),
            ExecutionAttemptFailure::Configuration
        );
    }
    for state in ["dispatching", "backend-pending", "running", "collecting"] {
        let history = vec![Reply::Done, attempt(state), request(state)];
        assert!(matches!(
            asked(fail("build-failure", "{}", history)),
            Statement::ReleaseReservation { phase, .. } if phase == state
        ));
    }
    for state in ["succeeded", "failed", "cancelled", "reconciling"] {
        assert_eq!(
            failure(fail("build-failure", "{}", vec![Reply::Done, attempt(state)])),
            ExecutionAttemptFailure::InvalidState
        );
    }
    let failed = fail(
        "build-failure",
        "{}",
        vec![
            Reply::Done,
            attempt("running"),
            request("running"),
            reservation("running", Some(5)),
            attempt("failed"),
            outcome("build-failure", "{}"),
            request("failed"),
            Reply::Done,
        ],
    );
    let failed = finished(failed);
    assert_eq!(failed.request.queue_state, BuildQueueState::Failed);
    assert_eq!(failed.outcome.classification, "build-failure");
}

#[test]
fn attempts_succeed_with_their_outputs_held() {
    let succeed = |metadata: &str, history: Vec<Reply>| {
        complete_execution_success(URL, &text("attempt"), &text(metadata), PATHS, &history)
    };
    for metadata in ["{}", "[]", "1", "{"] {
        assert_eq!(
            failure(succeed(metadata, vec![])),
            ExecutionAttemptFailure::Configuration
        );
    }
    let held = |leases| {
        vec![
            Reply::Done,
            attempt("collecting"),
            request("collecting"),
            Reply::Count(leases),
        ]
    };
    assert_eq!(
        failure(succeed("{\"a\":1}", held(0))),
        ExecutionAttemptFailure::InvalidState
    );
    assert!(matches!(
        asked(succeed("{\"a\":1}", held(1))),
        Statement::ReleaseReservation { phase: "collecting", .. }
    ));
    let mut ended = held(1);
    ended.extend([reservation("collecting", Some(5)), attempt("succeeded")]);
    assert!(matches!(
        asked(succeed("{\"a\":1}", ended)),
        Statement::InsertSuccess { result_metadata, .. } if result_metadata == "{\"a\":1}"
    ));
    let mut ended = held(1);
    ended.extend([
        reservation("collecting", Some(5)),
        attempt("succeeded"),
        outcome("succeeded", "{\"a\":1}"),
        request("completed"),
        Reply::Done,
    ]);
    let ended = finished(succeed("{\"a\":1}", ended));
    assert_eq!(ended.request.queue_state, BuildQueueState::Completed);
    assert_eq!(
        failure(succeed("{\"a\":1}", vec![Reply::Done, attempt("running")])),
        ExecutionAttemptFailure::InvalidState
    );
}

#[test]
fn outcomes_are_recorded_once() {
    let create = |history: Vec<Reply>| {
        create_execution_outcome(URL, &text("attempt"), &text("succeeded"), &history)
    };
    assert!(matches!(
        create(vec![Reply::Done]),
        Step::Perform(Statement::InsertPlainOutcome { .. })
    ));
    match create(vec![Reply::Done, outcome("succeeded", "{}"), Reply::Done]) {
        Step::Finish(Ok(recorded)) => assert_eq!(recorded.created_at, 5),
        other => panic!("{other:?}"),
    }
    match create(vec![Reply::Done, violation()]) {
        Step::Finish(Err(error)) => {
            assert_eq!(error.failure(), ExecutionOutcomeFailure::Conflict);
            assert_eq!(error.message(), "execution outcome state operation failed");
        }
        other => panic!("{other:?}"),
    }
    match read_execution_outcome(
        URL,
        &text("attempt"),
        &vec![Reply::Done, outcome("succeeded", "[]")],
    ) {
        Step::Finish(Err(error)) => assert_eq!(error.failure(), ExecutionOutcomeFailure::Query),
        other => panic!("{other:?}"),
    }
}
