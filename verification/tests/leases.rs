use telchar::persistence::database::{
    AttachmentRow, BuildRequestRow, DatabaseFault, LeaseRow, Reply, SessionRow, Statement, Step,
    WorkerLimits,
};
use telchar::persistence::leases::{
    create_request_input_leases, create_request_input_leases_with_limit,
    create_request_output_leases, create_request_retained_lease, create_store_lease,
    detach_request_and_release_leases, ensure_request_output_leases,
    read_released_request_leases_page, read_store_lease, release_expired_request_output_leases,
    release_store_lease, release_unattached_request_leases, StoreLeaseError, StoreLeaseFailure,
    StoreLeaseOwnerKind, StoreLeasePurpose, StoreLeaseRecord, StoreLeaseState,
};
use telchar::time::Span;

const URL: &str = "postgres://db";

fn limits() -> WorkerLimits {
    WorkerLimits {
        maximum_store_path_bytes: 256,
        maximum_input_sources: 4,
        maximum_outputs: 4,
    }
}

fn text(value: &str) -> String {
    value.to_string()
}

fn failure<T: std::fmt::Debug>(step: Step<T, StoreLeaseError>) -> StoreLeaseFailure {
    match step {
        Step::Finish(Err(error)) => error.failure(),
        other => panic!("{other:?}"),
    }
}

fn finished<T: std::fmt::Debug>(step: Step<T, StoreLeaseError>) -> T {
    match step {
        Step::Finish(Ok(value)) => value,
        other => panic!("{other:?}"),
    }
}

fn asked<T: std::fmt::Debug>(step: Step<T, StoreLeaseError>) -> Statement {
    match step {
        Step::Perform(statement) => statement,
        other => panic!("{other:?}"),
    }
}

fn request() -> Reply {
    Reply::BuildRequest(Some(BuildRequestRow {
        request_id: text("request"),
        derivation_path: text("/nix/store/a.drv"),
        system: text("x86_64-linux"),
        audit_subject: text("a"),
        quota_subject: text("q"),
        created_at: 1,
    }))
}

fn row(lease_id: &str, purpose: &str, state: &str) -> LeaseRow {
    LeaseRow {
        lease_id: text(lease_id),
        owner_kind: text("request"),
        owner_id: text("request"),
        store_path: format!("/nix/store/{lease_id}"),
        purpose: text(purpose),
        state: text(state),
        created_at: 10,
        released_at: if state == "released" { Some(20) } else { None },
        expires_at: if purpose == "output" { Some(30) } else { None },
        nar_size: None,
    }
}

fn lease(lease_id: &str, purpose: &str, state: &str) -> Reply {
    Reply::Lease(Some(row(lease_id, purpose, state)))
}

#[test]
fn lease_is_created_for_its_owner() {
    let create = |kind, purpose, path: &str, history: Vec<Reply>| {
        create_store_lease(
            URL,
            &text("lease"),
            kind,
            &text("request"),
            &text(path),
            purpose,
            &limits(),
            &history,
        )
    };
    let path = "/nix/store/lease";
    let request_kind = StoreLeaseOwnerKind::Request;
    match asked(create(request_kind, StoreLeasePurpose::Output, path, vec![Reply::Done, request()])) {
        Statement::InsertLease {
            expires_after_seconds,
            nar_size,
            purpose,
            owner_kind,
            ..
        } => {
            assert_eq!((expires_after_seconds, nar_size), (Some(3600), None));
            assert_eq!((owner_kind, purpose), ("request", "output"));
        }
        other => panic!("{other:?}"),
    }
    match asked(create(request_kind, StoreLeasePurpose::Input, path, vec![Reply::Done, request()])) {
        Statement::InsertLease { nar_size, .. } => assert_eq!(nar_size, Some(1)),
        other => panic!("{other:?}"),
    }
    let made = finished(create(
        request_kind,
        StoreLeasePurpose::Transfer,
        path,
        vec![Reply::Done, request(), lease("lease", "transfer", "active"), Reply::Done],
    ));
    assert_eq!(made.state, StoreLeaseState::Active);
    assert!(matches!(
        asked(create(
            StoreLeaseOwnerKind::Session,
            StoreLeasePurpose::Transfer,
            path,
            vec![Reply::Done]
        )),
        Statement::HoldSession { .. }
    ));
    let closed = Reply::Session(Some(SessionRow {
        session_id: text("request"),
        requester_reference: "0".repeat(64),
        credential_id: None,
        authentication_authority: None,
        audit_subject: text("a"),
        quota_subject: text("q"),
        state: text("closed"),
        created_at: 1,
        closed_at: Some(1),
    }));
    assert_eq!(
        failure(create(
            StoreLeaseOwnerKind::Session,
            StoreLeasePurpose::Transfer,
            path,
            vec![Reply::Done, closed]
        )),
        StoreLeaseFailure::InvalidState
    );
    for path in ["/nix/store/", "/tmp/a", "/nix/store/a\nb"] {
        assert_eq!(
            failure(create(request_kind, StoreLeasePurpose::Input, path, vec![])),
            StoreLeaseFailure::Configuration
        );
    }
    assert_eq!(
        failure(create(
            request_kind,
            StoreLeasePurpose::Input,
            path,
            vec![Reply::Done, request(), Reply::Failed(DatabaseFault::UniqueViolation)]
        )),
        StoreLeaseFailure::Conflict
    );
}

fn admitted(retained: i64, sizes: Vec<(String, i64)>) -> Vec<Reply> {
    vec![
        Reply::Done,
        request(),
        Reply::Done,
        Reply::Count(retained),
        Reply::Sizes(sizes),
    ]
}

fn inputs(
    limit: u64,
    leases: &[(&str, &str, u64)],
    history: Vec<Reply>,
) -> Step<Vec<StoreLeaseRecord>, StoreLeaseError> {
    let leases: Vec<(String, String, u64)> = leases
        .iter()
        .map(|(id, path, size)| (text(id), text(path), *size))
        .collect();
    create_request_input_leases_with_limit(URL, &text("request"), limit, &leases, &limits(), &history)
}

#[test]
fn inputs_are_retained_within_the_limit() {
    let two = [("a", "/nix/store/a", 60), ("b", "/nix/store/b", 40)];
    match asked(inputs(100, &two, vec![Reply::Done, request(), Reply::Done, Reply::Count(0)])) {
        Statement::ReadRetainedSizes { store_paths } => {
            assert_eq!(store_paths, vec![text("/nix/store/a"), text("/nix/store/b")])
        }
        other => panic!("{other:?}"),
    }
    match asked(inputs(100, &two, admitted(0, vec![]))) {
        Statement::InsertLease { lease_id, nar_size, .. } => {
            assert_eq!((lease_id.as_str(), nar_size), ("a", Some(60)))
        }
        other => panic!("{other:?}"),
    }
    assert_eq!(failure(inputs(99, &two, admitted(0, vec![]))), StoreLeaseFailure::Capacity);
    assert_eq!(failure(inputs(100, &two, admitted(1, vec![]))), StoreLeaseFailure::Capacity);
    // A path that is retained already adds nothing.
    let retained = vec![(text("/nix/store/a"), 60)];
    assert!(matches!(
        asked(inputs(100, &two, admitted(60, retained))),
        Statement::InsertLease { .. }
    ));
    let other = vec![(text("/nix/store/a"), 61)];
    assert_eq!(failure(inputs(1000, &two, admitted(0, other))), StoreLeaseFailure::Conflict);
    assert_eq!(failure(inputs(100, &two, admitted(-1, vec![]))), StoreLeaseFailure::Capacity);
    let mut history = admitted(0, vec![]);
    history.push(lease("a", "input", "active"));
    assert!(matches!(
        asked(inputs(100, &two, history)),
        Statement::InsertLease { lease_id, .. } if lease_id == "b"
    ));
    let mut history = admitted(0, vec![]);
    history.extend([lease("a", "input", "active"), lease("b", "input", "active"), Reply::Done]);
    assert_eq!(finished(inputs(100, &two, history)).len(), 2);
    assert!(finished(inputs(100, &[], vec![])).is_empty());
}

#[test]
fn lists_of_leases_are_checked() {
    for leases in [
        vec![("a", "/nix/store/a", 1), ("a", "/nix/store/b", 1)],
        vec![("a", "/nix/store/a", 1), ("b", "/nix/store/a", 1)],
        vec![("a", "/nix/store/a", 0)],
        vec![("a", "/nix/store/a", 1 << 63)],
        vec![("a", "/nix/store/a", 1); 5],
    ] {
        assert_eq!(failure(inputs(100, &leases, vec![])), StoreLeaseFailure::Configuration);
    }
    let plain = create_request_input_leases(
        URL,
        &text("request"),
        &vec![(text("a"), text("/nix/store/a"))],
        &limits(),
        &admitted(5, vec![]),
    );
    assert!(matches!(asked(plain), Statement::InsertLease { nar_size: Some(1), .. }));
    let single = |purpose, history: Vec<Reply>| {
        create_request_retained_lease(
            URL,
            &text("a"),
            &text("request"),
            &text("/nix/store/a"),
            purpose,
            9,
            10,
            &limits(),
            &history,
        )
    };
    assert_eq!(
        failure(single(StoreLeasePurpose::Output, vec![])),
        StoreLeaseFailure::Configuration
    );
    let mut history = admitted(0, vec![]);
    history.extend([lease("a", "derivation", "active"), Reply::Done]);
    assert_eq!(finished(single(StoreLeasePurpose::Derivation, history)).lease_id, "a");
}

#[test]
fn outputs_are_retained_for_a_while() {
    let leases = vec![(text("a"), text("/nix/store/a"))];
    let create = |seconds: u64, history: Vec<Reply>| {
        create_request_output_leases(
            URL,
            &text("request"),
            &Span::from_seconds(seconds),
            &leases,
            &limits(),
            &history,
        )
    };
    assert_eq!(failure(create(59, vec![])), StoreLeaseFailure::Configuration);
    assert_eq!(failure(create(86_401, vec![])), StoreLeaseFailure::Configuration);
    assert!(matches!(
        asked(create(60, vec![Reply::Done, request()])),
        Statement::InsertLease { expires_after_seconds: Some(60), purpose: "output", nar_size: None, .. }
    ));
    let ensure = |history: Vec<Reply>| {
        ensure_request_output_leases(
            URL,
            &text("request"),
            &Span::from_seconds(60),
            &leases,
            &limits(),
            &history,
        )
    };
    let found = |rows| vec![Reply::Done, Reply::Found(true), Reply::Leases(rows)];
    assert!(matches!(
        asked(ensure(found(vec![row("a", "output", "active")]))),
        Statement::Commit
    ));
    assert!(matches!(asked(ensure(found(vec![]))), Statement::InsertLease { .. }));
    for rows in [
        vec![row("b", "output", "active")],
        vec![row("a", "output", "released")],
        vec![row("a", "output", "active"), row("b", "output", "active")],
    ] {
        assert_eq!(failure(ensure(found(rows))), StoreLeaseFailure::Conflict);
    }
    assert_eq!(
        failure(ensure(vec![Reply::Done, Reply::Found(false)])),
        StoreLeaseFailure::Missing
    );
}

fn attached(state: &str) -> Reply {
    Reply::Attachment(Some(AttachmentRow {
        session_id: text("session"),
        request_id: text("request"),
        state: text(state),
        attached_at: 1,
        detached_at: if state == "detached" { Some(2) } else { None },
        delivered_at: None,
    }))
}

fn held() -> Reply {
    Reply::Leases(vec![
        row("a", "derivation", "active"),
        row("b", "input", "active"),
        row("c", "output", "active"),
        row("d", "input", "active"),
    ])
}

#[test]
fn detached_request_gives_its_inputs_back() {
    let detach = |history: Vec<Reply>| {
        detach_request_and_release_leases(
            URL,
            &text("session"),
            &text("request"),
            &limits(),
            &history,
        )
    };
    let locked = || vec![Reply::Done, request(), attached("attached"), held()];
    assert!(matches!(asked(detach(locked())), Statement::DetachAttached { .. }));
    let mut history = locked();
    history.push(attached("detached"));
    assert!(matches!(
        asked(detach(history)),
        Statement::ReleaseRequestInputLeases { .. }
    ));
    let mut history = locked();
    history.push(attached("detached"));
    // The rows come in any order.
    history.push(Reply::Leases(vec![
        row("d", "input", "released"),
        row("a", "derivation", "released"),
        row("b", "input", "released"),
    ]));
    history.push(Reply::Done);
    let released = finished(detach(history));
    let names: Vec<&str> = released.leases.iter().map(|lease| lease.lease_id.as_str()).collect();
    assert_eq!(names, ["a", "b", "d"]);
    let mut partial = locked();
    partial.push(attached("detached"));
    partial.push(Reply::Leases(vec![row("a", "derivation", "released")]));
    assert_eq!(failure(detach(partial)), StoreLeaseFailure::Query);
    assert_eq!(
        failure(detach(vec![Reply::Done, request(), attached("detached")])),
        StoreLeaseFailure::InvalidState
    );
    let without = Reply::Leases(vec![row("b", "input", "active")]);
    assert_eq!(
        failure(detach(vec![Reply::Done, request(), attached("attached"), without])),
        StoreLeaseFailure::Query
    );
}

#[test]
fn unattached_request_gives_its_inputs_back() {
    let release = |history: Vec<Reply>| {
        release_unattached_request_leases(URL, &text("request"), &limits(), &history)
    };
    assert_eq!(
        failure(release(vec![Reply::Done, request(), Reply::Found(true)])),
        StoreLeaseFailure::InvalidState
    );
    let released = Reply::Leases(vec![
        row("a", "derivation", "released"),
        row("b", "input", "released"),
        row("d", "input", "released"),
    ]);
    let ended = release(vec![
        Reply::Done,
        request(),
        Reply::Found(false),
        held(),
        released,
        Reply::Done,
    ]);
    assert_eq!(finished(ended).leases.len(), 3);
}

#[test]
fn lease_is_released_once() {
    let release =
        |history: Vec<Reply>| release_store_lease(URL, &text("a"), &limits(), &history);
    assert!(matches!(
        asked(release(vec![Reply::Done, lease("a", "input", "active")])),
        Statement::ReleaseActiveLease { .. }
    ));
    assert_eq!(
        failure(release(vec![Reply::Done, lease("a", "input", "released")])),
        StoreLeaseFailure::InvalidState
    );
    assert_eq!(
        failure(release(vec![Reply::Done, Reply::Lease(None)])),
        StoreLeaseFailure::Missing
    );
    assert_eq!(StoreLeaseFailure::InvalidState.as_str(), "invalid_state");
}

#[test]
fn expired_outputs_are_released() {
    let expire = |now: i64, rows: usize, history: Vec<Reply>| {
        release_expired_request_output_leases(URL, now, &None, rows, &limits(), &history)
    };
    assert_eq!(failure(expire(-1, 1, vec![])), StoreLeaseFailure::Configuration);
    assert_eq!(failure(expire(1, 257, vec![])), StoreLeaseFailure::Configuration);
    let selected = || {
        Reply::Leases(vec![row("a", "output", "active"), row("b", "output", "active")])
    };
    assert!(matches!(
        asked(expire(50, 2, vec![Reply::Done, selected()])),
        Statement::ReleaseActiveLease { lease_id } if lease_id == "a"
    ));
    assert!(matches!(
        asked(expire(50, 2, vec![Reply::Done, selected(), lease("a", "output", "released")])),
        Statement::ReleaseActiveLease { lease_id } if lease_id == "b"
    ));
    let ended = expire(
        50,
        2,
        vec![
            Reply::Done,
            selected(),
            lease("a", "output", "released"),
            lease("b", "output", "released"),
            Reply::Done,
        ],
    );
    assert_eq!(finished(ended).len(), 2);
    let input = Reply::Leases(vec![row("a", "input", "active")]);
    assert_eq!(failure(expire(50, 2, vec![Reply::Done, input])), StoreLeaseFailure::Query);
}

#[test]
fn leases_are_read() {
    let page = |rows: usize, history: Vec<Reply>| {
        read_released_request_leases_page(URL, &Some(text("a")), rows, &limits(), &history)
    };
    assert!(finished(page(0, vec![])).is_empty());
    assert!(matches!(
        asked(page(9999, vec![Reply::Done])),
        Statement::ReadReleasedRequestLeases { maximum_rows: 256, .. }
    ));
    let rows = Reply::Leases(vec![row("b", "input", "active")]);
    assert_eq!(failure(page(1, vec![Reply::Done, rows])), StoreLeaseFailure::Query);
    let read = |row: LeaseRow| {
        read_store_lease(
            URL,
            &text("a"),
            &limits(),
            &vec![Reply::Done, Reply::Lease(Some(row))],
        )
    };
    assert_eq!(finished(read(row("a", "output", "active"))).unwrap().expires_at, Some(30));
    let broken = [
        LeaseRow { expires_at: None, ..row("a", "output", "active") },
        LeaseRow { expires_at: Some(30), ..row("a", "input", "active") },
        LeaseRow { expires_at: Some(9), ..row("a", "output", "active") },
        LeaseRow { released_at: Some(9), ..row("a", "input", "released") },
        LeaseRow { released_at: Some(20), ..row("a", "input", "active") },
        LeaseRow { nar_size: Some(-1), ..row("a", "input", "active") },
        LeaseRow { owner_kind: text("other"), ..row("a", "input", "active") },
    ];
    for row in broken {
        assert_eq!(failure(read(row)), StoreLeaseFailure::Query);
    }
}
