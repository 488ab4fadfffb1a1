use telchar::backend::{
    BackendCapabilities, CancellationCapability, ExecutionRecovery, LogRecovery,
};
use telchar::fault::FaultKind;
use telchar::operator::report::{
    unix_seconds, AttemptReport, BackendReport, BuildReport, ConfigReport, QueueReport,
    RecoveryReport, StatusReport,
};
use telchar::persistence::shared_builds::{
    SharedBuild, SharedBuildAttempt, SharedBuildAttemptState, SharedBuildError,
    SharedBuildFailure, SharedBuildOperationalCounts, SharedBuildQueueEntry, SharedBuildState,
};
use telchar::service::config::model::BackendKind;
use telchar::service::config::validation::{
    Checked, RawLocalBackendConfig, RawStaticSshBackendConfig,
};
use telchar::service::config::{Environment, RawServiceConfig, ServiceConfig};

fn config() -> ServiceConfig {
    let checked = |value: &str| Checked {
        value: value.into(),
        refusal: None,
    };
    let mut raw = RawServiceConfig::default();
    raw.local = Some(RawLocalBackendConfig {
        name: "here".into(),
        system: "x86_64-linux".into(),
        supported_features: vec!["kvm".into()],
        maximum_concurrent_builds: 3,
    });
    raw.static_ssh = vec![RawStaticSshBackendConfig {
        name: "there".into(),
        system: "aarch64-linux".into(),
        supported_features: vec![],
        maximum_concurrent_builds: 2,
        destination: "builder@example.org".into(),
        identity_file: checked("/run/id"),
        known_hosts_file: checked("/run/known_hosts"),
        ssh_program: checked("/usr/bin/ssh"),
    }];
    let environment = Environment {
        credentials: Ok(None),
        output_retention_seconds: Ok(None),
        maximum_retained_input_bytes: Ok(None),
        running_disconnect_policy: Ok(None),
        database_url: Ok(None),
        ipc_socket: Ok(None),
        maximum_sessions: Ok(None),
        default_output_retention_seconds: 3600,
        default_maximum_retained_input_bytes: 1000,
        default_running_disconnect_policy: "continue".into(),
    };
    ServiceConfig::build(raw, environment).unwrap()
}

fn build(backend: &str, state: SharedBuildState) -> SharedBuild {
    SharedBuild {
        derivation_path: "/nix/store/a.drv".into(),
        request_digest: [7; 32],
        state,
        backend_name: backend.into(),
        backend_kind: BackendKind::Local,
        capabilities: BackendCapabilities::new(
            ExecutionRecovery::Adoptable,
            CancellationCapability::Explicit,
            LogRecovery::Replayable,
        ),
        backend_execution_id: Some("execution".into()),
        expected_outputs: vec!["/nix/store/out".into(), "/nix/store/doc".into()],
        build_request: None,
        result_metadata: None,
        failure_classification: None,
        created_at: 0,
        started_at: None,
        collecting_at: None,
        completed_at: None,
        expires_at: None,
    }
}

fn attempt() -> SharedBuildAttempt {
    SharedBuildAttempt {
        attempt_id: 9,
        derivation_path: "/nix/store/a.drv".into(),
        ordinal: 2,
        backend_name: "here".into(),
        backend_kind: BackendKind::Local,
        backend_execution_id: None,
        state: SharedBuildAttemptState::Collecting,
        created_at: 0,
        started_at: None,
        collecting_at: None,
        completed_at: None,
    }
}

#[test]
fn configured_backends_are_shown_with_their_capacity() {
    let report = ConfigReport::from_config(&config());
    assert!(report.valid);
    assert_eq!(report.backend_count, 2);
    let shown: Vec<(&str, &str, usize)> = report
        .backends
        .iter()
        .map(|backend| (backend.name.as_str(), backend.kind, backend.capacity))
        .collect();
    assert_eq!(shown, [("here", "local", 3), ("there", "static-ssh", 2)]);
    assert_eq!(report.backends[0].features, vec!["kvm".to_string()]);
}

#[test]
fn active_builds_are_counted_by_backend() {
    let active = vec![
        build("here", SharedBuildState::Running),
        build("gone", SharedBuildState::Running),
        build("here", SharedBuildState::Claimed),
    ];
    let report = BackendReport::from_builds(&config(), &active);
    let counts: Vec<usize> = report.backends.iter().map(|state| state.active_builds).collect();
    assert_eq!(counts, [2, 0]);
}

#[test]
fn status_needs_both_readings() {
    let counts = SharedBuildOperationalCounts {
        queued: 1,
        running: 2,
        collecting: 3,
    };
    let active = Ok(vec![build("here", SharedBuildState::Running)]);
    let report = StatusReport::read(Ok(counts), &active).unwrap();
    assert_eq!(
        (report.queued, report.running, report.collecting, report.active),
        (1, 2, 3, 1)
    );
    let query = SharedBuildError(SharedBuildFailure::Query);
    let quota = SharedBuildError(SharedBuildFailure::Quota);
    assert_eq!(
        StatusReport::read(Err(query), &Err(quota)).unwrap_err().failure(),
        SharedBuildFailure::Query
    );
    assert_eq!(
        StatusReport::read(Ok(counts), &Err(quota)).unwrap_err().failure(),
        SharedBuildFailure::Quota
    );
}

#[test]
fn builds_are_shown() {
    let report = BuildReport::read(
        &Some(build("here", SharedBuildState::Collecting)),
        &Some(attempt()),
    )
    .unwrap();
    assert_eq!((report.state, report.recovery), ("collecting", "adoptable"));
    assert_eq!(report.expected_outputs.len(), 2);
    let AttemptReport { ordinal, state } = report.attempt.unwrap();
    assert_eq!((ordinal, state), (2, "collecting"));
    let fault = BuildReport::read(&None, &Some(attempt())).unwrap_err();
    assert_eq!(fault.kind, FaultKind::NotFound);
    assert_eq!(fault.message, "shared build not found");
    let recovery = RecoveryReport::from_builds(&vec![build("here", SharedBuildState::Claimed)]);
    assert_eq!(recovery.builds[0].expected_outputs, 2);
    assert_eq!(recovery.builds[0].state, "claimed");
}

#[test]
fn queue_shows_seconds() {
    let entry = |queued_at| SharedBuildQueueEntry {
        derivation_path: "/nix/store/a.drv".into(),
        quota_subject: "team".into(),
        queue_position: 4,
        queued_at,
    };
    let report = QueueReport::from_entries(&vec![entry(7_999_999), entry(-1)]);
    assert_eq!(report.builds[0].queued_at_unix_seconds, 7);
    assert_eq!(report.builds[1].queued_at_unix_seconds, 0);
    assert_eq!(report.builds[0].queue_position, 4);
    assert_eq!(unix_seconds(1_000_000), 1);
}
