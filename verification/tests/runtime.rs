use telchar::fault::{Fault, FaultKind};
use telchar::persistence::executor::LocalBackendExecutionState;
use telchar::runtime::arguments::{
    daemon_socket_argument, daemon_uid_argument, duration_from_env, error_reason, once_argument,
    required_string, session_id, u32_from_env,
};
use telchar::runtime::daemon::{DaemonAction, DaemonEvent, DaemonLoop, DaemonService};
use telchar::runtime::executor::{
    execution_step, starts_execution, terminal_execution, BuildStatus, ExecutionAction,
    ExecutionReply, ExecutionResult, ExecutionStep,
};
use telchar::runtime::frontend::{frontend_envelope, frontend_identity, public_key_credential};
use telchar::runtime::session::{serve_accepted_connection, SessionAction, SessionStep};
use telchar::runtime::socket::{prepare_socket_path, SocketAction, SocketReply, SocketStep};
use telchar::runtime::startup::{
    serve_once, start_daemon, start_executor, OnceAction, OnceStep, StartupAction, StartupReply,
    StartupSettings, StartupStep,
};
use telchar::service::config::model::CredentialMapping;
use telchar::service::ipc::{IpcEnvelope, IpcError, RequesterMetadata};
use telchar::time::Span;

fn fault(kind: FaultKind) -> Fault {
    Fault {
        kind,
        message: "outside",
    }
}

fn arguments(texts: &[&str]) -> Vec<String> {
    texts.iter().map(|text| text.to_string()).collect()
}

#[test]
fn daemon_arguments_are_found() {
    let given = arguments(&[
        "telchar", "daemon", "--frontend-uid", "1000", "--socket", "/run/s", "--once",
    ]);
    assert_eq!(daemon_socket_argument(&given).unwrap(), "/run/s");
    assert_eq!(daemon_uid_argument(&given).unwrap(), 1000);
    assert!(once_argument(&given));
    let bare = arguments(&["telchar", "daemon"]);
    assert_eq!(daemon_socket_argument(&bare).unwrap_err().message, "daemon requires --socket");
    assert_eq!(
        daemon_uid_argument(&bare).unwrap_err().message,
        "daemon requires --frontend-uid"
    );
    assert!(!once_argument(&bare));
    let open = arguments(&["telchar", "daemon", "--socket"]);
    assert_eq!(daemon_socket_argument(&open).unwrap_err().message, "--socket requires a path");
    for value in ["-1", "x", "4294967296"] {
        let broken = arguments(&["telchar", "daemon", "--frontend-uid", value]);
        assert_eq!(
            daemon_uid_argument(&broken).unwrap_err().message,
            "--frontend-uid must be an unsigned integer"
        );
    }
    assert!(daemon_socket_argument(&arguments(&["--socket", "a"])).is_err());
}

#[test]
fn settings_fall_back_to_defaults() {
    assert_eq!(
        duration_from_env(&Some("1500".into()), 10),
        Span {
            seconds: 1,
            nanoseconds: 500_000_000
        }
    );
    assert_eq!(duration_from_env(&Some("x".into()), 10), Span::from_milliseconds(10));
    assert_eq!(duration_from_env(&None, 10), Span::from_milliseconds(10));
    assert_eq!(u32_from_env(&Some("7".into()), 1), 7);
    assert_eq!(u32_from_env(&Some("4294967296".into()), 1), 1);
    assert_eq!(
        required_string(None).unwrap_err().message,
        "required frontend environment is absent"
    );
    assert_eq!(session_id(12, 340_000_000_000_000_000_000), "12-340000000000000000000");
}

#[test]
fn failures_have_reasons() {
    for (kind, reason) in [
        (FaultKind::PermissionDenied, "permission-denied"),
        (FaultKind::TimedOut, "timeout"),
        (FaultKind::WouldBlock, "timeout"),
        (FaultKind::InvalidData, "invalid-input"),
        (FaultKind::InvalidInput, "invalid-input"),
        (FaultKind::NotFound, "unavailable"),
        (FaultKind::ConnectionRefused, "unavailable"),
        (FaultKind::BrokenPipe, "io-error"),
    ] {
        assert_eq!(error_reason(&fault(kind)), reason);
    }
}

#[test]
fn frontend_names_the_key_and_its_subjects() {
    assert_eq!(public_key_credential("SHA256:x"), "ssh-pubkey:SHA256:x");
    let mapping = CredentialMapping {
        audit_subject: Some("a".into()),
        quota_subject: None,
    };
    let identity = frontend_identity("SHA256:x".into(), Some(&mapping));
    assert_eq!(identity.audit_subject.as_deref(), Some("a"));
    assert!(identity.quota_subject.is_none());
    assert!(frontend_identity("f".into(), None).audit_subject.is_none());
    let requester = RequesterMetadata {
        credential_id: "c".into(),
        audit_subject: "a".into(),
        quota_subject: "q".into(),
    };
    let envelope = frontend_envelope(requester, 1, 2);
    assert_eq!((envelope.version, envelope.session_id.as_str()), (1, "1-2"));
}

#[test]
fn executions_end_with_their_outputs() {
    assert!(starts_execution(LocalBackendExecutionState::Accepted));
    assert!(!starts_execution(LocalBackendExecutionState::Running));
    let built = terminal_execution(&ExecutionResult::Built {
        status: BuildStatus::Built,
        outputs: Some(vec![
            ("out".into(), "/nix/store/a".into()),
            ("dev".into(), "/nix/store/\"b\"".into()),
        ]),
    });
    assert_eq!(built.state, LocalBackendExecutionState::Succeeded);
    assert_eq!(built.classification, "succeeded");
    assert_eq!(
        built.result_metadata,
        "{\"outputs\":[{\"name\":\"out\",\"path\":\"/nix/store/a\"},{\"name\":\"dev\",\"path\":\"/nix/store/\\\"b\\\"\"}],\"status\":\"built\"}"
    );
    let valid = terminal_execution(&ExecutionResult::Built {
        status: BuildStatus::AlreadyValid,
        outputs: Some(vec![]),
    });
    assert_eq!(valid.result_metadata, "{\"outputs\":[],\"status\":\"already-valid\"}");
    let unnamed = terminal_execution(&ExecutionResult::Built {
        status: BuildStatus::Built,
        outputs: None,
    });
    assert_eq!((unnamed.classification, unnamed.result_metadata.as_str()), ("output-failure", "{}"));
    let failed = terminal_execution(&ExecutionResult::Failed);
    assert_eq!(failed.classification, "infrastructure-failure");
    assert_eq!(failed.state, LocalBackendExecutionState::Failed);
}

#[test]
fn execution_runs_in_its_turn_and_its_end_is_recorded() {
    let mut history = Vec::new();
    for wanted in ["RecordRunning", "Prepare", "TakeTurn"] {
        match execution_step(&history) {
            ExecutionStep::Perform(action) => assert_eq!(format!("{action:?}"), wanted),
            other => panic!("{other:?}"),
        }
        let mut failed: Vec<ExecutionReply> =
            history.iter().map(|_| ExecutionReply::Done).collect();
        failed.push(ExecutionReply::Failed);
        assert!(matches!(execution_step(&failed), ExecutionStep::Finish));
        history.push(ExecutionReply::Done);
    }
    assert!(matches!(
        execution_step(&history),
        ExecutionStep::Perform(ExecutionAction::Execute)
    ));
    history.push(ExecutionReply::Executed(ExecutionResult::Failed));
    match execution_step(&history) {
        ExecutionStep::Perform(ExecutionAction::RecordEnd(terminal)) => {
            assert_eq!(terminal.classification, "infrastructure-failure");
        }
        other => panic!("{other:?}"),
    }
    history.push(ExecutionReply::Failed);
    assert!(matches!(execution_step(&history), ExecutionStep::Finish));
}

#[test]
fn session_is_opened_run_and_closed() {
    let envelope = |error| IpcEnvelope {
        version: 1,
        requester: RequesterMetadata {
            credential_id: "c".into(),
            audit_subject: "a".into(),
            quota_subject: "q".into(),
        },
        session_id: "s".into(),
        error,
    };
    let plain = envelope(None);
    let step = |history: &[Result<(), Fault>]| serve_accepted_connection(&plain, &history.to_vec());
    assert!(matches!(step(&[]), SessionStep::Perform(SessionAction::Open)));
    assert!(matches!(step(&[Ok(())]), SessionStep::Perform(SessionAction::Run)));
    let broken = Err(fault(FaultKind::BrokenPipe));
    assert!(matches!(step(&[Ok(()), broken]), SessionStep::Perform(SessionAction::Close)));
    assert!(matches!(step(&[Ok(()), Ok(()), Ok(())]), SessionStep::Finish(Ok(()))));
    match step(&[Ok(()), broken, broken]) {
        SessionStep::Finish(Err(ended)) => assert_eq!(ended.kind, FaultKind::BrokenPipe),
        other => panic!("{other:?}"),
    }
    for history in [vec![broken], vec![Ok(()), Ok(()), broken]] {
        match step(&history) {
            SessionStep::Finish(Err(ended)) => {
                assert_eq!(ended.message, "protocol session state operation failed")
            }
            other => panic!("{other:?}"),
        }
    }
    let reported = envelope(Some(IpcError {
        code: "c".into(),
        message: "m".into(),
    }));
    match serve_accepted_connection(&reported, &vec![]) {
        SessionStep::Finish(Err(ended)) => {
            assert_eq!(ended.message, "frontend reported an IPC envelope error")
        }
        other => panic!("{other:?}"),
    }
}

fn socket_fault(history: Vec<SocketReply>) -> Fault {
    match prepare_socket_path(true, &history) {
        SocketStep::Finish(Err(refused)) => refused,
        other => panic!("{other:?}"),
    }
}

fn socket_action(history: Vec<SocketReply>) -> SocketAction {
    match prepare_socket_path(true, &history) {
        SocketStep::Perform(action) => action,
        other => panic!("{other:?}"),
    }
}

#[test]
fn socket_path_is_prepared() {
    let exists = SocketReply::Failed(fault(FaultKind::AlreadyExists));
    let missing = SocketReply::Failed(fault(FaultKind::NotFound));
    let refused = SocketReply::Failed(fault(FaultKind::ConnectionRefused));
    let private = SocketReply::Entry {
        directory: true,
        socket: false,
        mode: 0o40700,
    };
    let open = SocketReply::Entry {
        directory: true,
        socket: false,
        mode: 0o40750,
    };
    let socket = SocketReply::Entry {
        directory: false,
        socket: true,
        mode: 0o600,
    };
    assert_eq!(socket_action(vec![]), SocketAction::CreateDirectory);
    assert_eq!(
        socket_action(vec![SocketReply::Done]),
        SocketAction::ProtectDirectory { mode: 0o700 }
    );
    assert_eq!(socket_action(vec![exists]), SocketAction::InspectDirectory);
    assert_eq!(
        socket_fault(vec![exists, open]).message,
        "daemon runtime directory is not private"
    );
    assert_eq!(socket_action(vec![exists, private]), SocketAction::InspectSocket);
    assert!(matches!(
        prepare_socket_path(true, &vec![exists, private, missing]),
        SocketStep::Finish(Ok(()))
    ));
    assert_eq!(
        socket_fault(vec![exists, private, private]).message,
        "daemon socket path exists and is not a socket"
    );
    assert_eq!(socket_action(vec![exists, private, socket]), SocketAction::Connect);
    assert_eq!(
        socket_fault(vec![exists, private, socket, SocketReply::Done]).message,
        "daemon socket is already accepting connections"
    );
    assert_eq!(
        socket_action(vec![exists, private, socket, refused]),
        SocketAction::RemoveSocket
    );
    assert!(matches!(
        prepare_socket_path(true, &vec![exists, private, socket, refused, SocketReply::Done]),
        SocketStep::Finish(Ok(()))
    ));
    assert!(matches!(
        prepare_socket_path(false, &vec![]),
        SocketStep::Finish(Err(Fault { message: "daemon socket requires a parent directory", .. }))
    ));
}

fn settings() -> StartupSettings {
    StartupSettings {
        callbacks: true,
        endpoint: true,
        socket_fault: None,
        uid_fault: None,
        once: false,
    }
}

fn run_startup(settings: StartupSettings, active: usize, monitored: usize) -> (Vec<StartupAction>, StartupStep) {
    let mut history = Vec::new();
    let mut actions = Vec::new();
    loop {
        match start_daemon(&settings, &history) {
            StartupStep::Perform(action) => {
                actions.push(action);
                history.push(match action {
                    StartupAction::ReadActiveBuilds => StartupReply::Count(active),
                    StartupAction::ReconcileBuilds => StartupReply::Count(monitored),
                    _ => StartupReply::Done,
                });
            }
            ended => return (actions, ended),
        }
    }
}

#[test]
fn daemon_starts_in_order() {
    let (actions, ended) = run_startup(settings(), 3, 2);
    assert!(matches!(ended, StartupStep::Started));
    assert!(matches!(actions[0], StartupAction::LoadConfiguration));
    assert!(matches!(actions[5], StartupAction::Migrate));
    assert!(matches!(actions[10], StartupAction::ReconcileBuilds));
    assert!(matches!(actions[13], StartupAction::StartRecoveryMonitor(0)));
    assert!(matches!(actions[14], StartupAction::StartRecoveryMonitor(1)));
    assert!(matches!(actions.last().unwrap(), StartupAction::ListenWithoutBlocking));
    assert_eq!(actions.len(), 24);
    let (plain, _) = run_startup(
        StartupSettings {
            callbacks: false,
            once: true,
            ..settings()
        },
        0,
        9,
    );
    assert_eq!(plain.len(), 16);
    assert!(matches!(plain.last().unwrap(), StartupAction::ProtectSocket));
}

#[test]
fn daemon_startup_fails_with_a_reason() {
    let outside = fault(FaultKind::NotFound);
    let reported = |place: usize| {
        let mut history = vec![StartupReply::Done; place];
        history.push(StartupReply::Failed(outside));
        match start_daemon(&settings(), &history) {
            StartupStep::Refuse(refused) => refused.message,
            other => panic!("{other:?}"),
        }
    };
    assert_eq!(reported(0), "database migration failed");
    assert_eq!(reported(1), "outside");
    assert_eq!(reported(5), "database migration failed");
    assert_eq!(reported(6), "singleton daemon ownership refused");
    assert_eq!(reported(9), "shared build recovery failed");
    assert_eq!(reported(10), "shared build metric reconciliation failed");
    assert_eq!(reported(11), "shared build scheduler initialization failed");
    let unset = StartupSettings {
        endpoint: false,
        ..settings()
    };
    match run_startup(unset, 0, 0).1 {
        StartupStep::Refuse(refused) => {
            assert_eq!(refused.message, "gateway store endpoint is not configured")
        }
        other => panic!("{other:?}"),
    }
    let unnamed = StartupSettings {
        socket_fault: Some(outside),
        ..settings()
    };
    assert!(matches!(run_startup(unnamed, 0, 0).1, StartupStep::Refuse(_)));
}

#[test]
fn executor_starts_in_order() {
    let mut history = Vec::new();
    let mut count = 0;
    while let StartupStep::Perform(_) = start_executor(None, &history) {
        history.push(StartupReply::Done);
        count += 1;
    }
    assert_eq!(count, 8);
    let history = vec![
        StartupReply::Done,
        StartupReply::Done,
        StartupReply::Done,
        StartupReply::Failed(fault(FaultKind::Other)),
    ];
    assert!(matches!(
        start_executor(None, &history),
        StartupStep::Refuse(Fault { message: "local executor ownership refused", .. })
    ));
}

#[test]
fn single_connection_is_followed_by_shutdown() {
    assert!(matches!(serve_once(true, 1, &vec![]), OnceStep::Perform(OnceAction::Serve)));
    let broken = Err(fault(FaultKind::BrokenPipe));
    assert!(matches!(
        serve_once(true, 1, &vec![broken]),
        OnceStep::Perform(OnceAction::ShutDownCallback)
    ));
    assert!(matches!(
        serve_once(true, 1, &vec![broken, Ok(())]),
        OnceStep::Perform(OnceAction::ShutDownMonitor(0))
    ));
    assert!(matches!(
        serve_once(true, 1, &vec![broken, Ok(()), Ok(())]),
        OnceStep::Finish(Err(Fault { kind: FaultKind::BrokenPipe, .. }))
    ));
    assert!(matches!(serve_once(false, 0, &vec![Ok(())]), OnceStep::Finish(Ok(()))));
    assert!(matches!(
        serve_once(true, 1, &vec![Ok(()), broken]),
        OnceStep::Finish(Err(_))
    ));
}

#[test]
fn daemon_goes_round_and_serves() {
    let mut daemon = DaemonLoop::new(true, 1, Span::from_milliseconds(1000), 0);
    let quiet = [
        DaemonEvent::Flag(false),
        DaemonEvent::Flag(false),
        DaemonEvent::Done,
        DaemonEvent::Done,
        DaemonEvent::Flag(true),
        DaemonEvent::Clock(5),
    ];
    let mut action = DaemonAction::ReadShutdownFlag;
    for event in quiet {
        action = daemon.step(event);
    }
    assert!(matches!(action, DaemonAction::Accept));
    let nothing = DaemonEvent::Failed(fault(FaultKind::WouldBlock));
    match daemon.step(nothing) {
        DaemonAction::Sleep(span) => assert_eq!(span, Span::from_milliseconds(10)),
        other => panic!("{other:?}"),
    }
    assert!(matches!(daemon.step(DaemonEvent::Done), DaemonAction::ReadShutdownFlag));
    for event in quiet {
        action = daemon.step(event);
    }
    assert!(matches!(action, DaemonAction::Accept));
    assert!(matches!(daemon.step(DaemonEvent::Done), DaemonAction::Admit));
    assert!(matches!(daemon.step(DaemonEvent::Flag(true)), DaemonAction::Serve));
    assert!(matches!(daemon.step(DaemonEvent::Done), DaemonAction::ReadShutdownFlag));
}

#[test]
fn daemon_without_a_permit_rejects() {
    let mut daemon = DaemonLoop::new(false, 0, Span::from_milliseconds(5), 0);
    for event in [
        DaemonEvent::Flag(false),
        DaemonEvent::Flag(true),
        DaemonEvent::Done,
        DaemonEvent::Done,
        DaemonEvent::Done,
        DaemonEvent::Clock(5_000_000),
    ] {
        daemon.step(event);
    }
    assert!(matches!(daemon.step(DaemonEvent::Done), DaemonAction::ReadClockAgain));
    assert!(matches!(daemon.step(DaemonEvent::Clock(6_000_000)), DaemonAction::Accept));
    assert_eq!(daemon.next_check, 11_000_000);
    assert!(matches!(daemon.step(DaemonEvent::Done), DaemonAction::Admit));
    assert!(matches!(daemon.step(DaemonEvent::Flag(false)), DaemonAction::Reject));
}

#[test]
fn daemon_stops_its_services_in_order() {
    let mut daemon = DaemonLoop::new(true, 2, Span::from_seconds(1), 0);
    let mut stopped = Vec::new();
    let mut action = daemon.step(DaemonEvent::Flag(true));
    while let DaemonAction::ShutDown(service) = action {
        stopped.push(service);
        action = daemon.step(DaemonEvent::Done);
    }
    assert_eq!(
        stopped,
        vec![
            DaemonService::Callback,
            DaemonService::Maintenance,
            DaemonService::StaticSshHealth,
            DaemonService::RecoveryMonitor(0),
            DaemonService::RecoveryMonitor(1),
        ]
    );
    assert!(matches!(action, DaemonAction::Stop(Ok(()))));
    assert!(matches!(daemon.step(DaemonEvent::Done), DaemonAction::Stop(Ok(()))));
}

#[test]
fn daemon_that_lost_its_ownership_stops() {
    let mut daemon = DaemonLoop::new(false, 0, Span::from_milliseconds(1), 0);
    for event in [
        DaemonEvent::Flag(false),
        DaemonEvent::Flag(false),
        DaemonEvent::Done,
        DaemonEvent::Done,
        DaemonEvent::Clock(2_000_000),
    ] {
        daemon.step(event);
    }
    let mut action = daemon.step(DaemonEvent::Failed(fault(FaultKind::Other)));
    while let DaemonAction::ShutDown(_) = action {
        action = daemon.step(DaemonEvent::Done);
    }
    assert!(matches!(
        action,
        DaemonAction::Stop(Err(Fault { message: "singleton daemon ownership lost", .. }))
    ));
}

#[test]
fn finished_monitors_are_taken_away() {
    let mut daemon = DaemonLoop::new(false, 2, Span::from_seconds(1), 0);
    for event in [
        DaemonEvent::Flag(false),
        DaemonEvent::Flag(false),
        DaemonEvent::Done,
        DaemonEvent::Done,
    ] {
        daemon.step(event);
    }
    assert!(matches!(daemon.step(DaemonEvent::Flag(false)), DaemonAction::RemoveMonitor(0)));
    assert!(matches!(daemon.step(DaemonEvent::Done), DaemonAction::CheckMonitor(0)));
    assert_eq!(daemon.monitors, 1);
    assert!(matches!(daemon.step(DaemonEvent::Flag(true)), DaemonAction::ReadClock));
    let failed = DaemonEvent::Failed(fault(FaultKind::Other));
    let mut removing = DaemonLoop {
        action: DaemonAction::RemoveMonitor(0),
        ..daemon
    };
    assert!(matches!(removing.step(failed), DaemonAction::Stop(Err(_))));
}
