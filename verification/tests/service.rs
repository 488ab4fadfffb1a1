use telchar::fault::{Fault, FaultKind};
use telchar::permits::Permits;
use telchar::service::cache_publication::{
    publish_step, CachePublisher, CommandStatus, PublishStep,
};
use telchar::service::config::model::SchedulingLimits;
use telchar::service::daemon_services::{
    recovery_counts, worker_ran, worker_woken, MaintenanceService, Polled, RecoveryMonitorService,
    StaticSshHealthService, Wake, WorkerStep,
};
use telchar::service::ipc::{
    authorize_peer, classify_envelope_error, copy_bounded, envelope_length, send_envelope,
    IpcEnvelope, IpcError, RelayStats, RelayStep, Requester, RequesterMetadata, IPC_VERSION,
};
use telchar::service::metrics::{
    backend_permit_acquired, backend_permit_released, build_request_finished, emit_smoke_metrics,
    io_failure_class, session_finished, session_started, AttributeValue, GaugeState, Instrument,
    Measured,
};
use telchar::service::session_builder::{SessionBuilder, SessionIdentity};
use telchar::service::singleton_ownership::{
    fence_database, fenced_database_url, lease_milliseconds, owner_token, AcquireReply, LeaseReply,
    OwnershipStatement, SingletonOwnership, SingletonOwnershipFailure,
};
use telchar::time::Span;

fn envelope(error: Option<IpcError>) -> IpcEnvelope {
    IpcEnvelope {
        version: IPC_VERSION,
        requester: RequesterMetadata {
            credential_id: "ssh-pubkey:SHA256:ä".into(),
            audit_subject: "auditor".into(),
            quota_subject: "team".into(),
        },
        session_id: "12-34".into(),
        error,
    }
}

#[test]
fn envelope_is_encoded_and_decoded() {
    let failure = IpcError {
        code: "refused".into(),
        message: "not today".into(),
    };
    for error in [None, Some(failure)] {
        let given = envelope(error);
        let bytes = given.encode().unwrap();
        let read = IpcEnvelope::decode(&bytes).unwrap();
        assert_eq!(read.requester.credential_id, "ssh-pubkey:SHA256:ä");
        assert_eq!(read.session_id, "12-34");
        assert_eq!(read.error.is_some(), given.error.is_some());
        assert_eq!(read.encode().unwrap(), bytes);
        let mut longer = bytes.clone();
        longer.push(0);
        assert!(IpcEnvelope::decode(&longer).is_err());
        assert!(IpcEnvelope::decode(&bytes[..bytes.len() - 1]).is_err());
    }
}

#[test]
fn envelope_is_sent_with_its_length() {
    let sent = send_envelope(&envelope(None)).unwrap();
    let length = envelope_length(sent[0], sent[1], sent[2], sent[3]).unwrap();
    assert_eq!(length, sent.len() - 4);
    assert!(envelope_length(0, 0, 0x40, 1).is_err());
    let mut long = envelope(None);
    long.session_id = "x".repeat(257);
    assert_eq!(long.encode().unwrap_err().message, "IPC string exceeds bounds");
    long.session_id = String::new();
    assert!(long.encode().is_err());
}

#[test]
fn requester_has_bounded_names() {
    let mut requester = Requester {
        credential_id: "ssh-cert:x".into(),
        audit_subject: "a".into(),
        quota_subject: "q".into(),
    };
    assert!(RequesterMetadata::from_requester(&requester).is_ok());
    requester.credential_id = "c".repeat(1025);
    assert!(RequesterMetadata::from_requester(&requester).is_err());
}

#[test]
fn peer_has_to_be_the_expected_user() {
    assert!(authorize_peer(1000, 1000).is_ok());
    assert_eq!(
        authorize_peer(0, 1000).unwrap_err().message(),
        "local IPC peer uid 0 does not match expected uid 1000"
    );
    assert_eq!(authorize_peer(0, 1000).unwrap_err().kind(), FaultKind::PermissionDenied);
}

#[test]
fn late_envelope_has_timed_out() {
    let fault = |kind| Fault { kind, message: "m" };
    assert_eq!(
        classify_envelope_error(fault(FaultKind::WouldBlock)).message,
        "IPC envelope timed out"
    );
    assert_eq!(classify_envelope_error(fault(FaultKind::NotFound)).message, "m");
}

#[test]
fn relay_reports_the_most_it_held() {
    let mut stats = RelayStats {
        maximum_buffered_bytes: 0,
    };
    assert_eq!(copy_bounded(&mut stats, 7), RelayStep::Forward(7));
    assert_eq!(copy_bounded(&mut stats, 3), RelayStep::Forward(3));
    assert_eq!(
        copy_bounded(&mut stats, 0),
        RelayStep::Finish(RelayStats {
            maximum_buffered_bytes: 7
        })
    );
}

#[test]
fn permits_are_bounded_and_given_back() {
    let mut permits = Permits::new(2);
    assert!(permits.acquire() && permits.acquire() && !permits.acquire());
    permits.release();
    assert_eq!(permits.active(), 1);
    assert!(permits.acquire());
    permits.release();
    permits.release();
    permits.release();
    assert_eq!(permits.active(), 0);
}

#[test]
fn outputs_are_published_as_a_json_line() {
    let publisher =
        CachePublisher::new("/bin/publish".into(), vec![], Span::from_seconds(5), 64).unwrap();
    let input = publisher
        .publish(&vec!["/nix/store/a".into(), "/nix/store/\"b".into()])
        .unwrap();
    assert_eq!(input, b"[\"/nix/store/a\",\"/nix/store/\\\"b\"]\n");
    let escaped = publisher.publish(&vec!["\\\t\u{1}\u{1f}\u{7f}\u{e9}/".into()]).unwrap();
    assert_eq!(escaped, "[\"\\\\\\t\\u0001\\u001f\u{7f}\u{e9}/\"]\n".as_bytes());
    let long = vec!["x".repeat(64)];
    assert!(publisher.publish(&long).is_err());
    for (path, seconds, bytes) in [("bin", 5, 64), ("/bin", 0, 64), ("/bin", 5, 0)] {
        assert_eq!(
            CachePublisher::new(path.into(), vec![], Span::from_seconds(seconds), bytes)
                .unwrap_err()
                .message,
            "cache publication configuration is invalid"
        );
    }
}

#[test]
fn publication_ends_with_its_command_or_its_time() {
    assert!(matches!(
        publish_step(CommandStatus::Exited(true), 0, 5),
        PublishStep::Finish(Ok(()))
    ));
    assert!(matches!(
        publish_step(CommandStatus::Exited(false), 0, 5),
        PublishStep::Finish(Err(_))
    ));
    assert!(matches!(publish_step(CommandStatus::Running, 0, 5), PublishStep::Wait));
    assert!(matches!(publish_step(CommandStatus::Running, 5, 5), PublishStep::Kill(_)));
}

#[test]
fn workers_end_once() {
    assert_eq!(worker_woken(Wake::Interval), WorkerStep::Run);
    assert_eq!(worker_woken(Wake::Stop), WorkerStep::EndWell);
    assert_eq!(worker_ran(None), WorkerStep::EndWithFailure);
    let mut service = MaintenanceService::start(Span::from_seconds(60)).unwrap();
    assert!(service.check(Polled::Empty).is_ok());
    assert_eq!(
        service.check(Polled::Failed).unwrap_err().message,
        "output retention maintenance failed"
    );
    assert!(service.check(Polled::Finished).is_err());
    assert!(service.shutdown(true, Polled::Empty).is_err());
    assert_eq!(
        StaticSshHealthService::start(Span::from_seconds(0)).unwrap_err().message,
        "background service interval must be positive"
    );
    let mut health = StaticSshHealthService::start(Span::from_seconds(1)).unwrap();
    assert_eq!(
        health.shutdown(false, Polled::Empty).unwrap_err().message,
        "static SSH health monitor failed"
    );
}

#[test]
fn monitor_leaves_the_count_as_it_was() {
    for looks in [vec![], vec![Some(true), Some(false)], vec![Some(true), None]] {
        let (started, mut count, after) = RecoveryMonitorService::start(Span::from_seconds(1));
        assert_eq!((count, after), (1, 0));
        let mut monitor = started.unwrap();
        for look in looks {
            count += monitor.reconciled(look).0;
        }
        count += monitor.shutdown(true, Polled::Finished).1;
        assert_eq!(count, 0);
    }
}

#[test]
fn monitor_that_cannot_start_is_counted_and_discounted() {
    let (started, counted, discounted) = RecoveryMonitorService::start(Span::from_seconds(0));
    assert!(started.is_err());
    assert_eq!((counted, discounted), (1, -1));
}

#[test]
fn ownership_is_granted_with_a_fence() {
    let url = "postgres://db.example/telchar";
    let granted = SingletonOwnership::acquire(
        url,
        Span::from_seconds(20),
        "token".into(),
        AcquireReply::Generation(7),
    )
    .unwrap();
    assert_eq!(granted.generation(), 7);
    assert_eq!(
        granted.database_url(),
        "postgres://db.example/telchar?options=-c%20telchar.owner_kind%3Ddaemon%20-c%20telchar.owner_token%3Dtoken%20-c%20telchar.owner_generation%3D7"
    );
    assert!(granted.renew(LeaseReply::Rows(1)).is_ok());
    assert_eq!(
        granted.check(LeaseReply::Rows(0)).unwrap_err().failure(),
        SingletonOwnershipFailure::Fenced
    );
    assert_eq!(
        granted.verify(LeaseReply::NotConnected).unwrap_err().failure(),
        SingletonOwnershipFailure::Connection
    );
    let executor = SingletonOwnership::acquire_local_executor(
        "host=localhost user=telchar",
        Span::from_seconds(20),
        "t".into(),
        AcquireReply::Generation(1),
    )
    .unwrap();
    assert!(executor.database_url().ends_with("owner_generation=1'"));
    assert!(executor.database_url().contains("owner_kind=local-executor"));
}

#[test]
fn ownership_statements_name_the_lease() {
    let url = "postgres://db.example/telchar";
    let lease = Span { seconds: 20, nanoseconds: 1_500_000 };
    let token = "token".to_string();
    let asked = SingletonOwnership::acquire_statement(url, lease, &token).unwrap();
    match asked {
        OwnershipStatement::Acquire { owner_kind, owner_token, milliseconds } => {
            assert_eq!((owner_kind, owner_token.as_str(), milliseconds), ("daemon", "token", 20_001));
        }
        other => panic!("{other:?}"),
    }
    match SingletonOwnership::acquire_local_executor_statement(url, lease, &token).unwrap() {
        OwnershipStatement::Acquire { owner_kind, .. } => assert_eq!(owner_kind, "local-executor"),
        other => panic!("{other:?}"),
    }
    assert_eq!(
        SingletonOwnership::acquire_statement(" ", lease, &token).unwrap_err().failure(),
        SingletonOwnershipFailure::Configuration
    );
    let owned =
        SingletonOwnership::acquire(url, lease, token, AcquireReply::Generation(3)).unwrap();
    match owned.renew_statement().unwrap() {
        OwnershipStatement::Renew { owner_kind, owner_token, generation, milliseconds } => {
            assert_eq!((owner_kind, owner_token.as_str()), ("daemon", "token"));
            assert_eq!((generation, milliseconds), (3, 20_001));
        }
        other => panic!("{other:?}"),
    }
    for statement in [owned.verify_statement(), owned.release_statement()] {
        match statement {
            OwnershipStatement::Verify { owner_kind, owner_token, generation }
            | OwnershipStatement::Release { owner_kind, owner_token, generation } => {
                assert_eq!((owner_kind, owner_token.as_str(), generation), ("daemon", "token", 3));
            }
            other => panic!("{other:?}"),
        }
    }
}

#[test]
fn looks_at_a_build_are_counted() {
    let going = recovery_counts(true);
    assert_eq!((going.succeeded, going.failed, going.monitoring), (0, 0, 1));
    let gone = recovery_counts(false);
    assert_eq!((gone.succeeded, gone.failed, gone.monitoring), (1, 0, 0));
}

#[test]
fn ownership_is_refused_for_a_reason() {
    let refused = |url: &str, reply| {
        SingletonOwnership::acquire(url, Span::from_seconds(20), "t".into(), reply)
            .unwrap_err()
            .failure()
    };
    let url = "postgres://db.example/telchar";
    assert_eq!(refused(" ", AcquireReply::NoRow), SingletonOwnershipFailure::Configuration);
    assert_eq!(refused(url, AcquireReply::NoRow), SingletonOwnershipFailure::Contended);
    assert_eq!(refused(url, AcquireReply::NotConnected), SingletonOwnershipFailure::Connection);
    assert_eq!(refused(url, AcquireReply::Unreadable), SingletonOwnershipFailure::Query);
    assert_eq!(
        refused("postgres://db:port/x", AcquireReply::Generation(1)),
        SingletonOwnershipFailure::Configuration
    );
    assert!(fenced_database_url("unknown=1", "k", "t", 1).is_err());
    assert!(fence_database("unknown=1", true, "k", "t", 1).is_ok());
    assert_eq!(lease_milliseconds(url, Span::from_milliseconds(1500)).unwrap(), 1500);
    assert!(lease_milliseconds(url, Span::from_seconds(u64::MAX)).is_err());
    assert_eq!(owner_token(255, 16, 1), "ff-10-1");
    assert_eq!(SingletonOwnershipFailure::Fenced.as_str(), "fenced");
}

#[test]
fn session_needs_everything() {
    let identity = SessionIdentity {
        database_url: "postgres://x".into(),
        session_id: "s".into(),
        audit_subject: "a".into(),
        quota_subject: "q".into(),
    };
    let partial: SessionBuilder<u8, u8, u8, u8, u8> = SessionBuilder::new()
        .backend_targets(vec![])
        .disconnect_policy("continue".into())
        .retention(Span::from_seconds(60), 9)
        .stores(1)
        .build_executor(2)
        .identity(identity)
        .transfer_admission(3)
        .disk_admission(4);
    assert_eq!(
        SessionBuilder::<u8, u8, u8, u8, u8>::new().build().err().unwrap().message,
        "worker session is not fully configured"
    );
    let context = partial
        .shared_builds(5, SchedulingLimits::new(1, 1).unwrap())
        .build()
        .unwrap();
    assert_eq!((context.stores, context.shared_builds), (1, 5));
    assert_eq!(context.retention.maximum_retained_input_bytes, 9);
}

#[test]
fn gauges_go_up_and_down() {
    let mut state = GaugeState::new();
    let value = |measurements: Vec<telchar::service::metrics::Measurement>| match measurements[0].value {
        Measured::Count(count) => count,
        Measured::Duration(_) => panic!("no count"),
    };
    assert_eq!(value(session_started(&mut state)), 1);
    assert_eq!(value(session_started(&mut state)), 2);
    assert_eq!(value(session_finished(&mut state)), 1);
    let taken = backend_permit_acquired(&mut state, "a", "local", Span::from_seconds(1));
    assert!(taken.iter().any(|measured| measured.instrument == Instrument::BackendPermitsActive));
    let given = backend_permit_released(&mut state, "a", "local");
    assert_eq!(value(given), 0);
}

#[test]
fn measurements_are_told_with_their_attributes() {
    let finished = build_request_finished(Span::from_seconds(2), "failed", Some("timeout"));
    assert!(finished.iter().any(|measured| measured.attributes.iter().any(|attribute| {
        matches!(&attribute.value, AttributeValue::Text(text) if text == "timeout")
    })));
    assert!(!emit_smoke_metrics().is_empty());
    let fault = Fault {
        kind: FaultKind::TimedOut,
        message: "m",
    };
    assert_eq!(io_failure_class(&fault), "timeout");
}
