use telchar::fault::{Fault, FaultKind};
use telchar::path::equal_paths;
use telchar::service::config::model::{
    equal_json, BackendKind, IpAddress, JsonValue, SocketAddress,
};
use telchar::service::config::validation::{
    toml_to_json, valid_nomad_endpoint, validate_driver_config, validate_nomad_backends, Checked,
    RawCredentialMapping,
    RawDriverConfig, RawLocalBackendConfig, RawNomadBackendConfig, RawNomadResources,
    RawNomadTransferAuthentication, RawNomadTransferLimits, RawSchedulingLimits,
    RawStaticSshBackendConfig, TomlValue,
};
use telchar::service::config::{ConfigFile, Environment, RawServiceConfig, ServiceConfig};
use telchar::service::config_reload::BackendReload;
use telchar::time::Span;

fn checked(value: &str) -> Checked {
    Checked {
        value: value.into(),
        refusal: None,
    }
}

fn environment() -> Environment {
    Environment {
        credentials: Ok(None),
        output_retention_seconds: Ok(None),
        maximum_retained_input_bytes: Ok(None),
        running_disconnect_policy: Ok(None),
        database_url: Ok(None),
        ipc_socket: Ok(None),
        maximum_sessions: Ok(None),
        default_output_retention_seconds: 3600,
        default_maximum_retained_input_bytes: 1000,
        default_running_disconnect_policy: "continue".into(),
    }
}

fn transfer_limits() -> RawNomadTransferLimits {
    RawNomadTransferLimits {
        maximum_manifest_paths: 100,
        maximum_manifest_bytes: 1 << 20,
        maximum_input_nar_bytes: 1 << 20,
        maximum_total_input_bytes: 1 << 22,
        maximum_output_nar_bytes: 1 << 20,
        maximum_total_output_bytes: 1 << 22,
        maximum_frame_metadata_bytes: 4096,
        stream_buffer_bytes: 8192,
        maximum_live_log_chunk_bytes: 1024,
        live_log_queue_bytes: 8192,
        transfer_idle_timeout_seconds: 10,
        setup_timeout_seconds: 20,
        output_collection_timeout_seconds: 30,
        maximum_connection_lifetime_seconds: 600,
        authentication_lifetime_seconds: 60,
        clock_skew_seconds: 5,
        nonce_retention_seconds: 120,
        reconnect_timeout_seconds: 15,
        maximum_diagnostic_bytes: 1024,
    }
}

fn nomad(name: &str) -> RawNomadBackendConfig {
    RawNomadBackendConfig {
        name: name.into(),
        system: "x86_64-linux".into(),
        supported_features: vec!["kvm".into()],
        maximum_concurrent_builds: 4,
        endpoint: "https://nomad.example:4646".into(),
        namespace: "default".into(),
        token_file: None,
        ca_certificate_file: None,
        client_certificate_file: None,
        client_key_file: None,
        driver: "docker".into(),
        driver_config: RawDriverConfig {
            members: vec![("image".into(), TomlValue::Text("builder".into()))],
        },
        resources: RawNomadResources {
            cpu_mhz: 1000,
            memory_mb: 1024,
            disk_mb: 2048,
        },
        job_name_scope: "telchar".into(),
        poll_interval_seconds: 5,
        runtime_limit_seconds: 3600,
        transfer_endpoint: None,
        transfer_authentication: RawNomadTransferAuthentication::Hmac {
            key_id: "key".into(),
            secret_file: checked("/run/secret"),
        },
        store_uri: "daemon".into(),
        transfer_limits: transfer_limits(),
        prestart: None,
    }
}

fn ssh(name: &str) -> RawStaticSshBackendConfig {
    RawStaticSshBackendConfig {
        name: name.into(),
        system: "aarch64-linux".into(),
        supported_features: vec!["big-parallel".into()],
        maximum_concurrent_builds: 2,
        destination: "builder@example.org".into(),
        identity_file: checked("/run/id"),
        known_hosts_file: checked("/run/known_hosts"),
        ssh_program: checked("/usr/bin/ssh"),
    }
}

fn built(change: impl FnOnce(&mut RawServiceConfig)) -> Result<ServiceConfig, Fault> {
    let mut raw = RawServiceConfig::default();
    change(&mut raw);
    ServiceConfig::build(raw, environment())
}

fn refusal(change: impl FnOnce(&mut RawServiceConfig)) -> &'static str {
    let fault = built(change).unwrap_err();
    assert_eq!(fault.kind, FaultKind::InvalidInput);
    fault.message
}

#[test]
fn empty_configuration_has_defaults() {
    let config = built(|_| {}).unwrap();
    assert_eq!(config.output_retention(), Span::from_seconds(3600));
    assert_eq!(config.maximum_retained_input_bytes(), 1000);
    assert_eq!(config.maximum_ipc_sessions(), 256);
    assert_eq!(config.ownership_renewal_interval(), Span::from_seconds(5));
    assert_eq!(config.ownership_lease_duration(), Span::from_seconds(20));
    assert_eq!(config.backend_permit_wait(), Span::from_seconds(30));
    assert_eq!(
        config.nomad_callback().bind(),
        SocketAddress { address: IpAddress::V4(0), port: 7443 }
    );
    assert_eq!(config.running_disconnect_policy(), "continue");
    assert_eq!(config.nomad_callback().maximum_connections(), 64);
    assert_eq!(config.scheduling_limits("anyone").maximum_queued_builds(), 65_536);
    assert!(config.local_backend().is_none());
    assert!(config.backend_targets().is_empty());
    assert_eq!(
        config.require_database_url().unwrap_err().message,
        "database URL is not configured"
    );
    assert_eq!(
        config.require_ipc_socket().unwrap_err().message,
        "IPC socket is not configured"
    );
}

#[test]
fn environment_comes_before_the_file() {
    let mut raw = RawServiceConfig::default();
    raw.output_retention_seconds = Some(100);
    raw.maximum_sessions = Some(3);
    let mut set = environment();
    set.output_retention_seconds = Ok(Some("200".into()));
    set.database_url = Ok(Some("postgres://db".into()));
    set.ipc_socket = Ok(Some("/run/telchar/socket".into()));
    let config = ServiceConfig::build(raw, set).unwrap();
    assert_eq!(config.output_retention(), Span::from_seconds(200));
    assert_eq!(config.maximum_ipc_sessions(), 3);
    assert_eq!(config.require_database_url().unwrap(), "postgres://db");
    assert_eq!(config.require_ipc_socket().unwrap(), "/run/telchar/socket");
}

#[test]
fn settings_have_bounds() {
    assert_eq!(
        refusal(|raw| raw.output_retention_seconds = Some(59)),
        "output retention is invalid"
    );
    assert!(built(|raw| raw.output_retention_seconds = Some(86_400)).is_ok());
    assert_eq!(
        refusal(|raw| raw.maximum_retained_input_bytes = Some(1 << 63)),
        "retained input byte limit is invalid"
    );
    assert_eq!(
        refusal(|raw| raw.maximum_sessions = Some(65_537)),
        "IPC session limit is invalid"
    );
    assert_eq!(
        refusal(|raw| raw.permit_wait_seconds = Some(3_601)),
        "backend permit wait is invalid"
    );
    assert_eq!(
        refusal(|raw| raw.ownership_renewal_seconds = Some(0)),
        "database ownership durations are invalid"
    );
    assert_eq!(
        refusal(|raw| raw.default_scheduling = Some(RawSchedulingLimits {
            maximum_queued_builds: 0,
            maximum_active_builds: 1
        })),
        "scheduling limits are invalid"
    );
    assert_eq!(
        refusal(|raw| raw.nomad_callback.maximum_connections = Some(0)),
        "Nomad callback service limits are invalid"
    );
    assert_eq!(
        refusal(|raw| raw.ipc_socket = Some("relative".into())),
        "IPC socket path is invalid"
    );
}

#[test]
fn credentials_are_mapped() {
    let mapping = RawCredentialMapping {
        audit_subject: Some("auditor".into()),
        quota_subject: None,
    };
    let config = built(|raw| {
        raw.credentials = vec![("ssh-pubkey:SHA256:abc".into(), mapping)];
    })
    .unwrap();
    let found = config.credential_mapping("ssh-pubkey:SHA256:abc").unwrap();
    assert_eq!(found.audit_subject.as_deref(), Some("auditor"));
    assert!(config.credential_mapping("ssh-pubkey:other").is_none());
    let with = |id: &str, audit: Option<&str>| {
        let mapping = RawCredentialMapping {
            audit_subject: audit.map(|text| text.to_string()),
            quota_subject: None,
        };
        let id = id.to_string();
        refusal(move |raw| raw.credentials = vec![(id, mapping)])
    };
    assert_eq!(with("password:x", Some("a")), "credential mapping ID is invalid");
    assert_eq!(with("ssh-cert:", Some("a")), "credential mapping ID is invalid");
    assert_eq!(with("ssh-cert:x", Some("")), "audit subject is invalid");
    assert_eq!(with("ssh-cert:x", None), "credential mapping is empty");
}

#[test]
fn backends_are_listed_with_their_features() {
    let config = built(|raw| {
        raw.local = Some(RawLocalBackendConfig {
            name: "local".into(),
            system: "x86_64-linux".into(),
            supported_features: vec!["nixos-test".into()],
            maximum_concurrent_builds: 1,
        });
        raw.static_ssh = vec![ssh("arm")];
        raw.nomad = vec![nomad("cluster")];
        raw.nomad_callback.public_url = Some("wss://gateway.example/callback".into());
    })
    .unwrap();
    let targets = config.backend_targets();
    let names: Vec<&str> = targets.iter().map(|target| target.name()).collect();
    assert_eq!(names, ["local", "arm", "cluster"]);
    assert_eq!(targets[2].kind(), BackendKind::Nomad);
    let systems = config.system_features();
    let listed: Vec<&str> = systems.iter().map(|(system, _)| system.as_str()).collect();
    assert_eq!(listed, ["aarch64-linux", "x86_64-linux"]);
    let intel = systems.iter().find(|(system, _)| system == "x86_64-linux").unwrap();
    assert!(intel.1.windows(2).all(|pair| pair[0] < pair[1]));
    assert!(intel.1.contains(&"kvm".to_string()) && intel.1.contains(&"nixos-test".to_string()));
}

#[test]
fn backend_names_are_unique() {
    assert_eq!(
        refusal(|raw| raw.static_ssh = vec![ssh("a"), ssh("a")]),
        "static SSH backend name is ambiguous"
    );
    assert_eq!(
        refusal(|raw| {
            raw.static_ssh = vec![ssh("a")];
            raw.local = Some(RawLocalBackendConfig {
                name: "a".into(),
                system: "x86_64-linux".into(),
                supported_features: vec![],
                maximum_concurrent_builds: 1,
            });
        }),
        "backend name is ambiguous"
    );
}

#[test]
fn nomad_backends_are_checked() {
    let endpoint = "wss://gateway.example/callback";
    assert!(validate_nomad_backends(vec![nomad("a"), nomad("b")], endpoint).is_ok());
    let refused = |change: fn(&mut RawNomadBackendConfig)| {
        let mut raw = nomad("a");
        change(&mut raw);
        validate_nomad_backends(vec![raw], endpoint).unwrap_err().message
    };
    assert_eq!(refused(|raw| raw.endpoint = "ftp://x".into()), "Nomad endpoint is invalid");
    assert_eq!(refused(|raw| raw.namespace = "".into()), "Nomad namespace is invalid");
    assert_eq!(refused(|raw| raw.driver = "".into()), "Nomad task driver is invalid");
    assert_eq!(
        refused(|raw| raw.client_key_file = Some(checked("/key"))),
        "Nomad client certificate and key must be configured together"
    );
    assert_eq!(refused(|raw| raw.resources.cpu_mhz = 0), "Nomad resources are invalid");
    assert_eq!(refused(|raw| raw.poll_interval_seconds = 0), "Nomad timing bounds are invalid");
    assert_eq!(
        refused(|raw| raw.transfer_limits.stream_buffer_bytes = 0),
        "Nomad transfer limits are invalid"
    );
    assert_eq!(refused(|raw| raw.job_name_scope = "".into()), "Nomad job-name scope is invalid");
    assert_eq!(refused(|raw| raw.store_uri = "".into()), "Nomad store URI is invalid");
    assert_eq!(
        refused(|raw| raw.transfer_endpoint = Some("https://plain".into())),
        "Nomad transfer endpoint is invalid"
    );
    assert_eq!(
        validate_nomad_backends(vec![nomad("a"), nomad("a")], endpoint)
            .unwrap_err()
            .message,
        "Nomad backend name is ambiguous"
    );
    assert!(valid_nomad_endpoint("https://nomad.example:4646"));
    assert!(!valid_nomad_endpoint("nomad.example"));
}

#[test]
fn driver_configuration_is_measured_as_json() {
    // As JSON: {"a":"..","b":[-1.5,true],"c":{"d":-7}}
    let measured = |filling: usize| {
        validate_driver_config(&RawDriverConfig {
            members: vec![
                ("a".into(), TomlValue::Text("\"".repeat(filling))),
                (
                    "b".into(),
                    TomlValue::Array(vec![
                        TomlValue::Float { bits: (-1.5f64).to_bits(), text: "-1.5".into() },
                        TomlValue::Boolean(true),
                    ]),
                ),
                ("c".into(), TomlValue::Table(vec![("d".into(), TomlValue::Integer(-7))])),
            ],
        })
    };
    let rest = r#"{"a":"","b":[-1.5,true],"c":{"d":-7}}"#.len();
    assert_eq!(rest % 2, 1);
    let most = (16_384 - rest) / 2;
    assert_eq!(measured(most).unwrap().len(), 3);
    assert_eq!(
        measured(most + 1).unwrap_err().message,
        "Nomad driver configuration exceeds limit"
    );
}

#[test]
fn driver_configuration_becomes_json() {
    let value = TomlValue::Table(vec![
        ("flag".into(), TomlValue::Boolean(true)),
        ("list".into(), TomlValue::Array(vec![TomlValue::Integer(-3)])),
    ]);
    match toml_to_json(&value, 0).unwrap() {
        JsonValue::Object(members) => {
            assert_eq!(members[0].0, "flag");
            assert!(matches!(members[0].1, JsonValue::Boolean(true)));
            match &members[1].1 {
                JsonValue::Array(items) => assert!(matches!(items[0], JsonValue::Integer(-3))),
                other => panic!("{other:?}"),
            }
        }
        other => panic!("{other:?}"),
    }
    assert_eq!(
        toml_to_json(&TomlValue::Datetime, 0).unwrap_err().message,
        "Nomad driver configuration is invalid"
    );
    let mut deep = TomlValue::Integer(1);
    for _ in 0..6 {
        deep = TomlValue::Array(vec![deep]);
    }
    assert!(toml_to_json(&deep, 0).is_err());
}

#[test]
fn missing_file_is_empty_unless_it_is_required() {
    assert!(ServiceConfig::load(ConfigFile::Missing, false, environment()).is_ok());
    assert_eq!(
        ServiceConfig::load(ConfigFile::Missing, true, environment()).unwrap_err().message,
        "service configuration could not be read"
    );
    assert!(ServiceConfig::load(ConfigFile::Unreadable, false, environment()).is_err());
    assert!(ServiceConfig::load_from_default(ConfigFile::Missing, environment()).is_ok());
    let broken = Fault {
        kind: FaultKind::InvalidInput,
        message: "service configuration is invalid",
    };
    assert_eq!(
        ServiceConfig::load(ConfigFile::Read(Err(broken)), false, environment())
            .unwrap_err()
            .message,
        "service configuration is invalid"
    );
}

#[test]
fn reload_changes_only_backends_over_ssh() {
    let mut current = built(|raw| raw.static_ssh = vec![ssh("a"), ssh("b")]).unwrap();
    let loaded = built(|raw| raw.static_ssh = vec![ssh("b"), ssh("c"), ssh("d")]);
    let reload = BackendReload::prepare(&current, loaded).unwrap();
    assert_eq!(reload.desired_static_ssh(), &vec!["b".to_string(), "c".into(), "d".into()]);
    let changes = reload.apply(&mut current, Ok(())).unwrap();
    assert_eq!((changes.added, changes.removed), (2, 1));
    assert_eq!(current.static_ssh_backends().len(), 3);
    let other = built(|raw| {
        raw.static_ssh = vec![ssh("a")];
        raw.maximum_sessions = Some(2);
    });
    assert_eq!(
        BackendReload::prepare(&current, other).unwrap_err().message,
        "configuration reload changes immutable settings"
    );
    let failed = Fault {
        kind: FaultKind::Other,
        message: "watch",
    };
    let again = BackendReload::prepare(&current, built(|_| {})).unwrap();
    assert!(again.apply(&mut current, Err(failed)).is_err());
    assert_eq!(current.static_ssh_backends().len(), 3);
}

#[test]
fn paths_are_compared_by_their_parts() {
    for (left, right) in [("/run/id", "/run//./id/"), ("a/b", "a//b/."), ("/", "//")] {
        assert!(equal_paths(left, right));
    }
    for (left, right) in [("/run/id", "run/id"), ("./a", "a"), ("a/../b", "b"), ("", ".")] {
        assert!(!equal_paths(left, right));
    }
}

#[test]
fn zeros_of_both_signs_are_equal() {
    let float = |value: f64| JsonValue::Float { bits: value.to_bits() };
    assert!(equal_json(&float(0.0), &float(-0.0)));
    assert!(!equal_json(&float(1.0), &float(-1.0)));
}

#[test]
fn settings_written_otherwise_are_reloaded() {
    let written = |identity: &str, socket: &str, bind| {
        let mut backend = ssh("a");
        backend.identity_file = checked(identity);
        built(|raw| {
            raw.static_ssh = vec![backend];
            raw.ipc_socket = Some(socket.into());
            raw.nomad_callback.bind = Ok(bind);
        })
    };
    let bind = SocketAddress { address: IpAddress::V4(0), port: 7443 };
    let current = written("/run/id", "/run/socket", None).unwrap();
    let reload = BackendReload::prepare(&current, written("/run//id", "/run/./socket", Some(bind)));
    assert!(reload.is_ok());
    let other = SocketAddress { port: 7444, ..bind };
    assert_eq!(
        BackendReload::prepare(&current, written("/run/id", "/run/socket", Some(other)))
            .unwrap_err()
            .message,
        "configuration reload changes immutable settings"
    );
}

#[test]
fn what_one_reload_adds_the_other_removes() {
    let few = || built(|raw| raw.static_ssh = vec![ssh("a")]);
    let many = || built(|raw| raw.static_ssh = vec![ssh("a"), ssh("b"), ssh("c")]);
    let there = BackendReload::prepare(&few().unwrap(), many()).unwrap();
    let back = BackendReload::prepare(&many().unwrap(), few()).unwrap();
    let added = there.apply(&mut few().unwrap(), Ok(())).unwrap();
    let removed = back.apply(&mut many().unwrap(), Ok(())).unwrap();
    assert_eq!((added.added, added.removed), (2, 0));
    assert_eq!((removed.added, removed.removed), (0, 2));
    let same = BackendReload::prepare(&many().unwrap(), many()).unwrap();
    let kept = same.apply(&mut many().unwrap(), Ok(())).unwrap();
    assert_eq!((kept.added, kept.removed), (0, 0));
}
