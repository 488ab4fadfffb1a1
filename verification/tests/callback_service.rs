use telchar::fault::{Fault, FaultKind};
use telchar::nomad_callback_service::{
    callback_path, closure_roots, ensure_before, failure_metadata, hmac_policy, input_manifest,
    read_transfer_frame, receive_build_outputs, serve_connection, stream_requested_inputs,
    success_metadata, write_transfer_frame, Accepted, BuildCollectionOutcome, BuildIdentity,
    BuildInputs, BuildOutcome, BuildResultMetadata, CollectionAction, CollectionEvent,
    ConnectionAction, ConnectionEvent, ConnectionStage, DrainStep, ExecutionFacts, FailureReport,
    InputManifest, InputNarSink, ListenerStep, NarMetadata,
    NomadCallbackService, OutputCollection, OutputImport, PathManifestEntry, PathSet,
};
use telchar::nomad_transfer_authentication::{Authentication, AuthenticationProof};
use telchar::nomad_transfer_protocol::{Frame, FrameKind, Phase, ProtocolLimits, ProtocolSession};
use telchar::service::config::model::NomadBackendConfig;
use telchar::service::config::validation::{
    validate_nomad_backends, validate_nomad_callback, Checked, RawDriverConfig,
    RawNomadBackendConfig, RawNomadCallbackConfig, RawNomadResources,
    RawNomadTransferAuthentication, RawNomadTransferLimits, TomlValue,
};

fn entry(path: &str, nar_size: u64) -> PathManifestEntry {
    PathManifestEntry {
        path: path.into(),
        nar_hash: "sha256:x".into(),
        nar_size,
        references: vec![],
        deriver: None,
    }
}

fn chunk(path: &str, nar_size: u64, offset: u64, final_chunk: bool) -> NarMetadata {
    NarMetadata {
        path: path.into(),
        nar_hash: "sha256:x".into(),
        nar_size,
        offset,
        final_chunk,
    }
}

fn backends() -> Vec<NomadBackendConfig> {
    let raw = RawNomadBackendConfig {
        name: "cluster".into(),
        system: "x86_64-linux".into(),
        supported_features: vec![],
        maximum_concurrent_builds: 4,
        endpoint: "https://nomad.example:4646".into(),
        namespace: "default".into(),
        token_file: None,
        ca_certificate_file: None,
        client_certificate_file: None,
        client_key_file: None,
        driver: "docker".into(),
        driver_config: RawDriverConfig {
            members: vec![("image".into(), TomlValue::Text("builder".into()))],
        },
        resources: RawNomadResources {
            cpu_mhz: 1000,
            memory_mb: 1024,
            disk_mb: 2048,
        },
        job_name_scope: "telchar".into(),
        poll_interval_seconds: 5,
        runtime_limit_seconds: 3600,
        transfer_endpoint: None,
        transfer_authentication: RawNomadTransferAuthentication::Hmac {
            key_id: "key".into(),
            secret_file: Checked {
                value: "/run/secret".into(),
                refusal: None,
            },
        },
        store_uri: "daemon".into(),
        transfer_limits: RawNomadTransferLimits {
            maximum_manifest_paths: 100,
            maximum_manifest_bytes: 1 << 20,
            maximum_input_nar_bytes: 1 << 20,
            maximum_total_input_bytes: 1 << 22,
            maximum_output_nar_bytes: 1 << 20,
            maximum_total_output_bytes: 1 << 22,
            maximum_frame_metadata_bytes: 4096,
            stream_buffer_bytes: 8192,
            maximum_live_log_chunk_bytes: 1024,
            live_log_queue_bytes: 8192,
            transfer_idle_timeout_seconds: 10,
            setup_timeout_seconds: 20,
            output_collection_timeout_seconds: 30,
            maximum_connection_lifetime_seconds: 600,
            authentication_lifetime_seconds: 60,
            clock_skew_seconds: 5,
            nonce_retention_seconds: 120,
            reconnect_timeout_seconds: 15,
            maximum_diagnostic_bytes: 1024,
        },
        prestart: None,
    };
    validate_nomad_backends(vec![raw], "wss://gateway.example/callback").unwrap()
}

fn authentication() -> Authentication {
    Authentication {
        backend: "cluster".into(),
        namespace: "default".into(),
        job_id: "job".into(),
        allocation_id: "allocation".into(),
        task: "build".into(),
        shared_build_digest: "digest".into(),
        proof: AuthenticationProof::WorkloadIdentity { token: "t".into() },
    }
}

#[test]
fn message_is_written_and_read_back() {
    let frame = Frame::new(FrameKind::LogChunk, b"{}".to_vec(), b"log".to_vec());
    let message = write_transfer_frame(&frame, 64, 64).unwrap();
    let read = read_transfer_frame(&message, ProtocolLimits::new(64, 64)).unwrap();
    assert_eq!((read.kind(), read.payload()), (FrameKind::LogChunk, &b"log"[..]));
    let mut longer = message;
    longer.push(0);
    assert_eq!(
        read_transfer_frame(&longer, ProtocolLimits::new(64, 64)).unwrap_err().message,
        "Nomad transfer message contains trailing bytes"
    );
}

#[test]
fn deadline_ends_a_transfer() {
    assert!(ensure_before(4, 5).is_ok());
    assert_eq!(ensure_before(5, 5).unwrap_err().kind, FaultKind::TimedOut);
}

#[test]
fn chunks_of_an_output_follow_each_other() {
    let import = OutputImport::new(entry("/nix/store/out", 10));
    assert_eq!(import.receive(&chunk("/nix/store/out", 10, 0, false), 4).unwrap(), 4);
    assert!(import.receive(&chunk("/nix/store/out", 10, 4, false), 4).is_err());
    assert!(import.receive(&chunk("/nix/store/other", 10, 0, false), 4).is_err());
    assert!(import.receive(&chunk("/nix/store/out", 11, 0, true), 4).is_err());
    assert_eq!(
        import.receive(&chunk("/nix/store/out", 10, 0, false), 0).unwrap_err().message,
        "Nomad output NAR chunk is inconsistent"
    );
}

#[test]
fn outputs_are_collected_verified_and_receipted() {
    let mut session = ProtocolSession::resume(Phase::ResolvingInputs);
    session
        .accept(
            telchar::nomad_transfer_protocol::Direction::WorkerToGateway,
            FrameKind::BuildStarted,
        )
        .unwrap();
    let mut collection = OutputCollection::new(session);
    let step = |collection: &mut OutputCollection, event| receive_build_outputs(collection, event).unwrap();
    assert!(matches!(
        step(&mut collection, CollectionEvent::Frame(FrameKind::LogChunk)),
        CollectionAction::ReadFrame
    ));
    assert!(matches!(
        step(&mut collection, CollectionEvent::Frame(FrameKind::OutputMetadata)),
        CollectionAction::MarkCollecting
    ));
    assert!(matches!(
        step(&mut collection, CollectionEvent::Collected(true)),
        CollectionAction::ReadOutputMetadata
    ));
    assert!(matches!(
        step(&mut collection, CollectionEvent::OutputMetadata(Ok(entry("/nix/store/out", 3)))),
        CollectionAction::ReadFrame
    ));
    assert!(matches!(
        step(&mut collection, CollectionEvent::Frame(FrameKind::OutputNar)),
        CollectionAction::ReadOutputNar
    ));
    assert!(matches!(
        step(
            &mut collection,
            CollectionEvent::OutputNar(Ok(chunk("/nix/store/out", 3, 0, true)), 3)
        ),
        CollectionAction::ImportOutput
    ));
    match step(&mut collection, CollectionEvent::Imported(Ok(true))) {
        CollectionAction::SendReceipt(receipt) => {
            assert_eq!(receipt.path, "/nix/store/out");
            assert!(receipt.accepted);
        }
        other => panic!("{other:?}"),
    }
    assert!(matches!(
        step(&mut collection, CollectionEvent::Frame(FrameKind::BuildResult)),
        CollectionAction::ReadBuildResult
    ));
    let built = BuildResultMetadata {
        outcome: BuildOutcome::Built,
        diagnostic: None,
    };
    assert!(matches!(
        step(&mut collection, CollectionEvent::BuildResult(Ok(built))),
        CollectionAction::VerifyOutputs
    ));
    assert_eq!(
        receive_build_outputs(&mut collection, CollectionEvent::Verified(Ok(false)))
            .unwrap_err()
            .message,
        "Nomad output is unavailable in gateway store"
    );
    assert!(matches!(
        step(&mut collection, CollectionEvent::Verified(Ok(true))),
        CollectionAction::Finish(BuildCollectionOutcome::Built)
    ));
}

#[test]
fn output_has_to_come_in_full() {
    let mut collection = OutputCollection::new(ProtocolSession::resume(Phase::Building));
    for event in [
        CollectionEvent::Frame(FrameKind::OutputMetadata),
        CollectionEvent::Collected(true),
        CollectionEvent::OutputMetadata(Ok(entry("/nix/store/out", 3))),
        CollectionEvent::Frame(FrameKind::OutputNar),
    ] {
        receive_build_outputs(&mut collection, event).unwrap();
    }
    let early = CollectionEvent::OutputNar(Ok(chunk("/nix/store/out", 3, 0, true)), 2);
    assert_eq!(
        receive_build_outputs(&mut collection, early).unwrap_err().message,
        "Nomad output NAR length is inconsistent"
    );
    let part = CollectionEvent::OutputNar(Ok(chunk("/nix/store/out", 3, 0, false)), 2);
    assert!(matches!(
        receive_build_outputs(&mut collection, part).unwrap(),
        CollectionAction::KeepPayload
    ));
    assert_eq!(collection.current().unwrap().received, 2);
}

#[test]
fn result_during_an_output_is_refused() {
    let mut collection = OutputCollection::new(ProtocolSession::resume(Phase::Building));
    for event in [
        CollectionEvent::Frame(FrameKind::OutputMetadata),
        CollectionEvent::Collected(true),
        CollectionEvent::OutputMetadata(Ok(entry("/nix/store/out", 3))),
    ] {
        receive_build_outputs(&mut collection, event).unwrap();
    }
    assert_eq!(
        receive_build_outputs(&mut collection, CollectionEvent::Frame(FrameKind::BuildResult))
            .unwrap_err()
            .message,
        "Nomad build completed during output transfer"
    );
    assert_eq!(
        receive_build_outputs(&mut collection, CollectionEvent::Frame(FrameKind::OutputMetadata))
            .unwrap_err()
            .message,
        "Nomad output NAR transfer is interleaved"
    );
    assert!(collection.current().is_some());
    assert!(receive_build_outputs(&mut collection, CollectionEvent::Collected(true)).is_err());
}

#[test]
fn input_within_the_buffer_is_one_chunk() {
    let mut sink = InputNarSink::new(&entry("/nix/store/in", 6), 16);
    let written = sink.write(b"abcdef");
    assert!(written.outcome.is_ok() && written.sent.is_none());
    let sent = sink.finish().unwrap();
    assert_eq!(sent.payload, b"abcdef");
    assert!(sent.metadata.final_chunk);
    assert_eq!((sent.metadata.offset, sent.metadata.nar_size), (0, 6));
}

#[test]
fn input_of_another_length_is_refused() {
    let mut short = InputNarSink::new(&entry("/nix/store/in", 7), 16);
    assert!(short.write(b"abcdef").outcome.is_ok());
    assert_eq!(short.finish().unwrap_err().message, "Nomad input NAR length is invalid");
    let mut long = InputNarSink::new(&entry("/nix/store/in", 5), 16);
    assert!(long.has_room(16) && !long.has_room(17));
    assert!(long.write(b"abcdef").outcome.is_ok());
    assert_eq!(long.finish().unwrap_err().message, "Nomad input NAR length is invalid");
}

#[test]
fn input_beyond_the_buffer_is_refused() {
    let mut sink = InputNarSink::new(&entry("/nix/store/in", 6), 4);
    assert!(sink.has_room(6));
    let written = sink.write(b"abcdef");
    let sent = written.sent.unwrap();
    assert_eq!(sent.payload, b"abcd");
    assert!(!sent.metadata.final_chunk);
    assert_eq!(written.outcome.unwrap_err().message, "Nomad input NAR chunk is empty");
    assert_eq!(sink.finish().unwrap_err().message, "Nomad input NAR length is invalid");
}

#[test]
fn only_inputs_of_the_manifest_are_streamed() {
    let manifest = InputManifest {
        derivation_path: "/nix/store/a.drv".into(),
        paths: vec![entry("/nix/store/one", 1), entry("/nix/store/two", 2)],
        outputs: vec![],
    };
    let requested = PathSet {
        paths: vec!["/nix/store/two".into(), "/nix/store/three".into()],
    };
    assert_eq!(stream_requested_inputs(&manifest, &requested, 0, 1, 9).unwrap(), Some(1));
    assert_eq!(
        stream_requested_inputs(&manifest, &requested, 1, 1, 9).unwrap_err().message,
        "Nomad input request is not admitted"
    );
    assert_eq!(stream_requested_inputs(&manifest, &requested, 2, 1, 9).unwrap(), None);
    assert!(stream_requested_inputs(&manifest, &requested, 0, 9, 9).is_err());
}

#[test]
fn manifest_needs_the_whole_closure() {
    let build = BuildInputs {
        derivation_path: b"/nix/store/a.drv".to_vec(),
        input_sources: vec![b"/nix/store/one".to_vec()],
        expected_outputs: vec![(b"out".to_vec(), b"/nix/store/out".to_vec())],
    };
    let roots = closure_roots(&build);
    assert!(roots.contains(&b"/nix/store/a.drv".to_vec()) || roots.contains(&b"/nix/store/one".to_vec()));
    let closure = vec![entry("/nix/store/a.drv", 1), entry("/nix/store/one", 1)];
    let manifest = input_manifest(&build, closure).unwrap();
    assert_eq!(manifest.derivation_path, "/nix/store/a.drv");
    assert_eq!(manifest.outputs, vec!["/nix/store/out".to_string()]);
    assert_eq!(
        input_manifest(&build, vec![]).unwrap_err().message,
        "Nomad callback input closure is incomplete"
    );
}

#[test]
fn callback_path_is_that_of_the_url() {
    assert_eq!(callback_path("wss://gateway.example/callback").unwrap(), "/callback");
    assert_eq!(
        callback_path("gateway.example").unwrap_err().message,
        "Nomad callback URL is invalid"
    );
}

#[test]
fn policy_follows_the_backend() {
    let callback = validate_nomad_callback(RawNomadCallbackConfig {
        bind: Ok(None),
        public_url: None,
        maximum_connections: None,
        maximum_header_bytes: None,
        maximum_body_bytes: None,
        authentication_request_timeout_seconds: None,
        shutdown_drain_timeout_seconds: None,
        maximum_jwks_bytes: None,
        maximum_retained_nonces: Some(7),
    })
    .unwrap();
    let policy = hmac_policy(&backends()[0], &callback, &authentication(), vec![1]).unwrap();
    assert_eq!(policy.key_id, "key");
    assert_eq!(policy.job_id, "job");
    assert_eq!(policy.maximum_retained_nonces, 7);
}

#[test]
fn connection_is_served_stage_by_stage() {
    let backends = backends();
    let facts = ExecutionFacts {
        matches: true,
        derivation_path: Some("/nix/store/a.drv".into()),
        has_build_request: true,
    };
    let (stage, action) = serve_connection(
        ConnectionStage::Authentication,
        ConnectionEvent::Authenticated(Ok(authentication())),
        &backends,
    )
    .unwrap();
    assert!(matches!(action, ConnectionAction::ResolveExecution));
    let (stage, action) =
        serve_connection(stage, ConnectionEvent::Resolved(Ok(Some(facts))), &backends).unwrap();
    assert!(matches!(action, ConnectionAction::Admit(0)));
    let (stage, action) =
        serve_connection(stage, ConnectionEvent::Admitted(Ok(()), 10), &backends).unwrap();
    assert!(matches!(action, ConnectionAction::SendManifest));
    let (stage, action) =
        serve_connection(stage, ConnectionEvent::ManifestSent(Ok(()), 11), &backends).unwrap();
    assert!(matches!(action, ConnectionAction::ReadFrame));
    let (stage, _) = serve_connection(
        stage,
        ConnectionEvent::FrameRead(Ok(FrameKind::ValidPaths), 12),
        &backends,
    )
    .unwrap();
    let (stage, action) = serve_connection(
        stage,
        ConnectionEvent::FrameRead(Ok(FrameKind::InputRequest), 13),
        &backends,
    )
    .unwrap();
    assert!(matches!(action, ConnectionAction::StreamInputs));
    let (stage, action) =
        serve_connection(stage, ConnectionEvent::InputsStreamed(Ok(())), &backends).unwrap();
    assert!(matches!(action, ConnectionAction::ReceiveOutputs(Phase::ResolvingInputs)));
    let (stage, action) = serve_connection(
        stage,
        ConnectionEvent::OutputsReceived(Ok(BuildCollectionOutcome::Built)),
        &backends,
    )
    .unwrap();
    match action {
        ConnectionAction::RecordSuccess(build) => {
            assert_eq!(build.derivation_path, "/nix/store/a.drv");
            assert_eq!((build.backend.as_str(), build.execution_id.as_str()), ("cluster", "job"));
        }
        other => panic!("{other:?}"),
    }
    let (_, action) = serve_connection(stage, ConnectionEvent::Recorded(true), &backends).unwrap();
    assert!(matches!(action, ConnectionAction::Close(Ok(()))));
}

#[test]
fn connection_is_refused_where_something_is_missing() {
    let backends = backends();
    let execution = || {
        serve_connection(
            ConnectionStage::Authentication,
            ConnectionEvent::Authenticated(Ok(authentication())),
            &backends,
        )
        .unwrap()
        .0
    };
    let refused = |stage, event| serve_connection(stage, event, &backends).unwrap_err().message;
    assert_eq!(
        refused(execution(), ConnectionEvent::Resolved(Ok(None))),
        "Nomad callback execution is unavailable"
    );
    let admission = |matches, path: Option<&str>, request| {
        let facts = ExecutionFacts {
            matches,
            derivation_path: path.map(|text| text.to_string()),
            has_build_request: request,
        };
        serve_connection(execution(), ConnectionEvent::Resolved(Ok(Some(facts))), &backends)
            .unwrap()
            .0
    };
    assert_eq!(
        refused(admission(false, Some("/p"), true), ConnectionEvent::Admitted(Ok(()), 0)),
        "Nomad callback execution identity is inconsistent"
    );
    assert_eq!(
        refused(admission(true, None, true), ConnectionEvent::Admitted(Ok(()), 0)),
        "Nomad callback derivation identity is unavailable"
    );
    assert_eq!(
        refused(admission(true, Some("/p"), false), ConnectionEvent::Admitted(Ok(()), 0)),
        "Nomad callback build specification is unavailable"
    );
    assert_eq!(
        refused(admission(true, Some("/p"), true), ConnectionEvent::Admitted(Ok(()), u128::MAX)),
        "Nomad connection lifetime is invalid"
    );
    let denied = Fault {
        kind: FaultKind::PermissionDenied,
        message: "denied",
    };
    assert_eq!(
        refused(admission(true, Some("/p"), true), ConnectionEvent::Admitted(Err(denied), 0)),
        "denied"
    );
    assert_eq!(
        refused(execution(), ConnectionEvent::Recorded(true)),
        "Nomad callback event is out of order"
    );
}

#[test]
fn service_counts_its_connections() {
    let mut service = NomadCallbackService::start(1);
    let first = match service.accepted(Accepted::Connection) {
        ListenerStep::Serve(number) => number,
        other => panic!("{other:?}"),
    };
    assert!(matches!(service.accepted(Accepted::Connection), ListenerStep::Reject));
    assert!(matches!(service.accepted(Accepted::Nothing), ListenerStep::Pause));
    assert_eq!(service.active_connections(), 1);
    assert_eq!(service.shutdown(1, 5), DrainStep::Wait);
    assert_eq!(service.shutdown(5, 5), DrainStep::CloseAll);
    assert!(matches!(service.accepted(Accepted::Connection), ListenerStep::Stop));
    service.finished(first);
    assert_eq!(service.active_connections(), 0);
    assert_eq!(service.shutdown(1, 5), DrainStep::CloseAll);
}

#[test]
fn ends_are_recorded_as_objects() {
    assert_eq!(
        failure_metadata(&FailureReport::Stage("output-collection")),
        "{\"stage\":\"output-collection\"}"
    );
    assert_eq!(
        failure_metadata(&FailureReport::Diagnostic(Some("a \"b\"\n".into()))),
        "{\"diagnostic\":\"a \\\"b\\\"\\n\"}"
    );
    assert_eq!(
        failure_metadata(&FailureReport::Diagnostic(None)),
        "{\"diagnostic\":null}"
    );
    let build = BuildIdentity {
        backend: "cluster".into(),
        execution_id: "job".into(),
        derivation_path: "/nix/store/a.drv".into(),
    };
    let outputs = vec![
        ("out".into(), "/nix/store/out".into()),
        ("doc".into(), "/nix/store/doc".into()),
    ];
    let written = success_metadata(&build, &outputs);
    let value: serde_json::Value = serde_json::from_str(&written).unwrap();
    assert_eq!(value["status"], "built");
    assert_eq!(value["backend"], "cluster");
    assert_eq!(value["execution_id"], "job");
    assert_eq!(value["outputs"][1]["name"], "doc");
    assert_eq!(value["outputs"][1]["path"], "/nix/store/doc");
    assert_eq!(value["outputs"].as_array().unwrap().len(), 2);
}
