//! Settings of the service, put together from its configuration file and its environment.

pub mod guarantees;
pub mod model;
pub mod validation;

use crate::fault::{self, invalid_input, Fault};
use crate::path::{self, equal_optional_paths};
use crate::service::cache_publication::{self, CachePublisher};
use crate::service::config::model::{
    equal_options, BackendTarget, CredentialMapping, LocalBackendConfig, NomadBackendConfig,
    NomadCallbackConfig, SchedulingLimits, SocketAddress, StaticSshBackendConfig,
};
use crate::service::config::validation::{
    validate_local_backend, validate_mappings, validate_nomad_backends, validate_nomad_callback,
    validate_scheduling_limits, validate_static_ssh_backends, validate_subject,
    validate_unique_backend_names, Checked, RawCredentialMapping, RawLocalBackendConfig,
    RawNomadBackendConfig, RawNomadCallbackConfig, RawSchedulingLimits, RawStaticSshBackendConfig,
};
use crate::text;
use crate::time::Span;
use vstd::prelude::*;

verus! {

pub const DEFAULT_CONFIG_PATH: &'static str = "/etc/telchar/telchar.toml";

pub const DEFAULT_MAXIMUM_IPC_SESSIONS: usize = 256;

pub const MAXIMUM_IPC_SESSIONS: usize = 65_536;

pub const DEFAULT_OWNERSHIP_RENEWAL_SECONDS: u64 = 5;

pub const DEFAULT_OWNERSHIP_LEASE_SECONDS: u64 = 20;

pub const MAXIMUM_OWNERSHIP_LEASE_SECONDS: u64 = 86_400;

pub const DEFAULT_MAXIMUM_QUEUED_BUILDS: usize = 65_536;

pub const DEFAULT_MAXIMUM_ACTIVE_BUILDS: usize = 65_536;

pub const MAXIMUM_QUOTA_SUBJECTS: usize = 4_096;

pub const DEFAULT_BACKEND_PERMIT_WAIT_SECONDS: u64 = 30;

pub const MAXIMUM_BACKEND_PERMIT_WAIT_SECONDS: u64 = 3_600;

pub const MINIMUM_OUTPUT_RETENTION_SECONDS: u64 = 60;

pub const MAXIMUM_OUTPUT_RETENTION_SECONDS: u64 = 86_400;

pub const MAXIMUM_RETAINED_INPUT_BYTES: u64 = 0x7fff_ffff_ffff_ffff;

pub const DEFAULT_PUBLICATION_TIMEOUT_SECONDS: u64 = 300;

pub const DEFAULT_PUBLICATION_INPUT_BYTES: usize = 65_536;

/// What is configured of cache publication.
#[derive(Clone, Debug)]
pub struct RawCachePublication {
    pub executable: String,
    pub arguments: Vec<String>,
    pub timeout_seconds: Option<u64>,
    pub maximum_input_bytes: Option<usize>,
}

/// What is configured of the service.
#[derive(Debug)]
pub struct RawServiceConfig {
    pub output_retention_seconds: Option<u64>,
    pub maximum_retained_input_bytes: Option<u64>,
    pub cache_publication: Option<RawCachePublication>,
    pub running_disconnect_policy: Option<Checked>,
    /// The database URL read from the configured file.
    pub database_url: Option<Checked>,
    pub ownership_renewal_seconds: Option<u64>,
    pub ownership_lease_seconds: Option<u64>,
    pub ipc_socket: Option<String>,
    pub maximum_sessions: Option<usize>,
    pub nomad_callback: RawNomadCallbackConfig,
    pub credentials: Vec<(String, RawCredentialMapping)>,
    pub default_scheduling: Option<RawSchedulingLimits>,
    pub subject_scheduling: Vec<(String, RawSchedulingLimits)>,
    pub permit_wait_seconds: Option<u64>,
    pub local: Option<RawLocalBackendConfig>,
    pub static_ssh: Vec<RawStaticSshBackendConfig>,
    pub nomad: Vec<RawNomadBackendConfig>,
}

/// What the environment sets, each value or why it could not be read, and the values of the
/// deployment that hold where nothing is set.
#[derive(Debug)]
pub struct Environment {
    /// The credentials of the mapping file that the environment names.
    pub credentials: Result<Option<Vec<(String, RawCredentialMapping)>>, Fault>,
    pub output_retention_seconds: Result<Option<String>, Fault>,
    pub maximum_retained_input_bytes: Result<Option<String>, Fault>,
    pub running_disconnect_policy: Result<Option<Checked>, Fault>,
    pub database_url: Result<Option<String>, Fault>,
    pub ipc_socket: Result<Option<String>, Fault>,
    pub maximum_sessions: Result<Option<String>, Fault>,
    pub default_output_retention_seconds: u64,
    pub default_maximum_retained_input_bytes: u64,
    pub default_running_disconnect_policy: String,
}

impl Environment {
    /// The credentials are sorted.
    pub open spec fn well_formed(self) -> bool {
        self.credentials matches Ok(Some(listed)) ==> model::sorted_keys(listed@)
    }
}

impl RawServiceConfig {
    /// Whatever is configured by key is sorted.
    pub open spec fn well_formed(self) -> bool {
        &&& model::sorted_keys(self.credentials@)
        &&& model::sorted_keys(self.subject_scheduling@)
        &&& forall|i: int| 0 <= i < self.nomad@.len() ==> (#[trigger] self.nomad@[i]).well_formed()
    }
}

/// The settings of the service.
#[derive(Debug)]
pub struct ServiceConfig {
    pub running_disconnect_policy: String,
    pub output_retention: Span,
    pub maximum_retained_input_bytes: u64,
    pub cache_publisher: Option<CachePublisher>,
    pub database_url: Option<String>,
    pub ownership_renewal_interval: Span,
    pub ownership_lease_duration: Span,
    pub ipc_socket: Option<String>,
    pub maximum_ipc_sessions: usize,
    pub nomad_callback: NomadCallbackConfig,
    pub credential_mappings: Vec<(String, CredentialMapping)>,
    pub default_scheduling_limits: SchedulingLimits,
    pub subject_scheduling_limits: Vec<(String, SchedulingLimits)>,
    pub backend_permit_wait: Span,
    pub local_backend: Option<LocalBackendConfig>,
    pub static_ssh_backends: Vec<StaticSshBackendConfig>,
    pub nomad_backends: Vec<NomadBackendConfig>,
}

/// How many backends over SSH a reload adds and removes.
#[derive(Clone, Copy, Debug, PartialEq, Eq, Structural)]
pub struct StaticSshReloadChanges {
    pub added: usize,
    pub removed: usize,
}

/// A setting, or why it is refused.
pub open spec fn retention_seconds(raw: RawServiceConfig, environment: Environment) -> Result<
    nat,
    Fault,
> {
    let refused = fault::input_fault("output retention is invalid");
    let chosen: Option<nat> = match environment.output_retention_seconds {
        Ok(Some(text)) => text::unsigned_number(text@, u64::MAX as nat),
        _ => match raw.output_retention_seconds {
            Some(seconds) => Some(seconds as nat),
            None => Some(environment.default_output_retention_seconds as nat),
        },
    };
    match environment.output_retention_seconds {
        Err(refusal) => Err(refusal),
        Ok(set) => match chosen {
            Some(seconds) => if set is None && raw.output_retention_seconds is None {
                Ok(seconds)
            } else if MINIMUM_OUTPUT_RETENTION_SECONDS <= seconds
                <= MAXIMUM_OUTPUT_RETENTION_SECONDS {
                Ok(seconds)
            } else {
                Err(refused)
            },
            None => Err(refused),
        },
    }
}

/// The limit on retained inputs, or why it is refused.
pub open spec fn retained_bytes(raw: RawServiceConfig, environment: Environment) -> Result<
    nat,
    Fault,
> {
    let refused = fault::input_fault("retained input byte limit is invalid");
    match environment.maximum_retained_input_bytes {
        Err(refusal) => Err(refusal),
        Ok(Some(text)) => match text::unsigned_number(text@, u64::MAX as nat) {
            Some(bytes) => if bytes == 0 || bytes > MAXIMUM_RETAINED_INPUT_BYTES {
                Err(refused)
            } else {
                Ok(bytes)
            },
            None => Err(refused),
        },
        Ok(None) => {
            let bytes = match raw.maximum_retained_input_bytes {
                Some(bytes) => bytes as nat,
                None => environment.default_maximum_retained_input_bytes as nat,
            };
            if bytes > MAXIMUM_RETAINED_INPUT_BYTES {
                Err(refused)
            } else {
                Ok(bytes)
            }
        },
    }
}

/// The command that publishes outputs, or why it is refused.
pub open spec fn publisher(raw: Option<RawCachePublication>) -> Result<
    Option<CachePublisher>,
    Fault,
> {
    match raw {
        None => Ok(None),
        Some(config) => {
            let timeout = Span::spec_seconds(
                validation::or_number(config.timeout_seconds, DEFAULT_PUBLICATION_TIMEOUT_SECONDS),
            );
            let maximum_input_bytes = validation::or_size(
                config.maximum_input_bytes,
                DEFAULT_PUBLICATION_INPUT_BYTES,
            );
            if cache_publication::is_publisher(
                config.executable@,
                config.arguments@,
                timeout,
                maximum_input_bytes,
            ) {
                Ok(
                    Some(
                        CachePublisher {
                            executable: config.executable,
                            arguments: config.arguments,
                            timeout,
                            maximum_input_bytes,
                        },
                    ),
                )
            } else {
                Err(cache_publication::configuration_fault())
            }
        },
    }
}

/// The policy for running builds of clients that leave: the environment comes first, and the
/// default last.
pub open spec fn disconnect_policy(raw: RawServiceConfig, environment: Environment) -> Result<
    String,
    Fault,
> {
    match environment.running_disconnect_policy {
        Err(refusal) => Err(refusal),
        Ok(set) => {
            let chosen = if set is Some {
                set
            } else {
                raw.running_disconnect_policy
            };
            match validation::option_refusal(chosen) {
                Some(refusal) => Err(refusal),
                None => Ok(
                    match validation::option_value(chosen) {
                        Some(policy) => policy,
                        None => environment.default_running_disconnect_policy,
                    },
                ),
            }
        },
    }
}

/// The database, if one is configured; the environment comes first.
pub open spec fn database(raw: RawServiceConfig, environment: Environment) -> Result<
    Option<String>,
    Fault,
> {
    match environment.database_url {
        Err(refusal) => Err(refusal),
        Ok(Some(url)) => if url@.len() == 0 {
            Err(fault::input_fault("database URL is invalid"))
        } else {
            Ok(Some(url))
        },
        Ok(None) => match validation::option_refusal(raw.database_url) {
            Some(refusal) => Err(refusal),
            None => Ok(validation::option_value(raw.database_url)),
        },
    }
}

pub open spec fn renewal_seconds(raw: RawServiceConfig) -> u64 {
    validation::or_number(raw.ownership_renewal_seconds, DEFAULT_OWNERSHIP_RENEWAL_SECONDS)
}

pub open spec fn lease_seconds(raw: RawServiceConfig) -> u64 {
    validation::or_number(raw.ownership_lease_seconds, DEFAULT_OWNERSHIP_LEASE_SECONDS)
}

/// The ownership is renewed at least three times before it lapses.
pub open spec fn ownership_valid(raw: RawServiceConfig) -> bool {
    &&& renewal_seconds(raw) > 0
    &&& lease_seconds(raw) <= MAXIMUM_OWNERSHIP_LEASE_SECONDS
    &&& 3 * renewal_seconds(raw) <= lease_seconds(raw)
}

/// The socket that frontends connect to; the environment comes first.
pub open spec fn socket(raw: RawServiceConfig, environment: Environment) -> Result<
    Option<String>,
    Fault,
> {
    match environment.ipc_socket {
        Err(refusal) => Err(refusal),
        Ok(set) => {
            let chosen = if set is Some {
                set
            } else {
                raw.ipc_socket
            };
            match chosen {
                Some(path) => if path@.len() > 0 && path@[0] == '/' {
                    Ok(chosen)
                } else {
                    Err(fault::input_fault("IPC socket path is invalid"))
                },
                None => Ok(None),
            }
        },
    }
}

/// How many sessions are served at once, or why the number is refused.
pub open spec fn session_limit(raw: RawServiceConfig, environment: Environment) -> Result<
    nat,
    Fault,
> {
    let refused = fault::input_fault("IPC session limit is invalid");
    match environment.maximum_sessions {
        Err(refusal) => Err(refusal),
        Ok(Some(text)) => match text::unsigned_number(text@, usize::MAX as nat) {
            Some(sessions) => if sessions == 0 || sessions > MAXIMUM_IPC_SESSIONS {
                Err(refused)
            } else {
                Ok(sessions)
            },
            None => Err(refused),
        },
        Ok(None) => {
            let sessions = validation::or_size(raw.maximum_sessions, DEFAULT_MAXIMUM_IPC_SESSIONS);
            if sessions > MAXIMUM_IPC_SESSIONS {
                Err(refused)
            } else {
                Ok(sessions as nat)
            }
        },
    }
}

/// The credentials that count: those of the mapping file, if the environment names one.
pub open spec fn credentials(raw: RawServiceConfig, environment: Environment) -> Seq<
    (String, RawCredentialMapping),
> {
    match environment.credentials {
        Ok(Some(replacement)) => replacement@,
        _ => raw.credentials@,
    }
}

pub open spec fn default_scheduling(raw: RawServiceConfig) -> RawSchedulingLimits {
    match raw.default_scheduling {
        Some(limits) => limits,
        None => RawSchedulingLimits {
            maximum_queued_builds: DEFAULT_MAXIMUM_QUEUED_BUILDS,
            maximum_active_builds: DEFAULT_MAXIMUM_ACTIVE_BUILDS,
        },
    }
}

/// The fault of the first subject whose limits are refused.
pub open spec fn first_subject_fault(raw: Seq<(String, RawSchedulingLimits)>) -> Option<Fault>
    decreases raw.len(),
{
    if raw.len() == 0 {
        None
    } else {
        match first_subject_fault(raw.drop_last()) {
            Some(refusal) => Some(refusal),
            None => if !validation::is_subject(raw.last().0@) {
                Some(fault::input_fault("quota subject is invalid"))
            } else if !validation::scheduling_valid(raw.last().1) {
                Some(fault::input_fault("scheduling limits are invalid"))
            } else {
                None
            },
        }
    }
}

proof fn subject_fault_stays(raw: Seq<(String, RawSchedulingLimits)>, count: int)
    requires
        0 <= count <= raw.len(),
        first_subject_fault(raw.take(count)) is Some,
    ensures
        first_subject_fault(raw) == first_subject_fault(raw.take(count)),
    decreases raw.len(),
{
    if count == raw.len() {
        assert(raw.take(count) =~= raw);
    } else {
        assert(raw.drop_last().take(count) =~= raw.take(count));
        subject_fault_stays(raw.drop_last(), count);
    }
}

pub open spec fn permit_wait(raw: RawServiceConfig) -> u64 {
    validation::or_number(raw.permit_wait_seconds, DEFAULT_BACKEND_PERMIT_WAIT_SECONDS)
}

pub open spec fn option_local_fault(raw: Option<RawLocalBackendConfig>) -> Option<Fault> {
    match raw {
        Some(local) => validation::local_fault(local),
        None => None,
    }
}

/// The names of all configured backends.
pub open spec fn configured_names(raw: RawServiceConfig) -> Seq<Seq<char>> {
    (match raw.local {
        Some(local) => seq![local.name@],
        None => seq![],
    }) + raw.static_ssh@.map_values(|one: RawStaticSshBackendConfig| one.name@)
        + raw.nomad@.map_values(|one: RawNomadBackendConfig| one.name@)
}

/// Why what is configured is refused; the first reason in this order decides.
pub open spec fn build_fault(raw: RawServiceConfig, environment: Environment) -> Option<Fault> {
    if environment.credentials is Err {
        Some(environment.credentials->Err_0)
    } else if retention_seconds(raw, environment) is Err {
        Some(retention_seconds(raw, environment)->Err_0)
    } else if retained_bytes(raw, environment) is Err {
        Some(retained_bytes(raw, environment)->Err_0)
    } else if publisher(raw.cache_publication) is Err {
        Some(publisher(raw.cache_publication)->Err_0)
    } else if disconnect_policy(raw, environment) is Err {
        Some(disconnect_policy(raw, environment)->Err_0)
    } else if database(raw, environment) is Err {
        Some(database(raw, environment)->Err_0)
    } else if !ownership_valid(raw) {
        Some(fault::input_fault("database ownership durations are invalid"))
    } else if socket(raw, environment) is Err {
        Some(socket(raw, environment)->Err_0)
    } else if session_limit(raw, environment) is Err {
        Some(session_limit(raw, environment)->Err_0)
    } else if validation::callback_fault(raw.nomad_callback) is Some {
        validation::callback_fault(raw.nomad_callback)
    } else if validation::mappings_fault(credentials(raw, environment)) is Some {
        validation::mappings_fault(credentials(raw, environment))
    } else if raw.subject_scheduling@.len() > MAXIMUM_QUOTA_SUBJECTS {
        Some(fault::input_fault("scheduling subject count exceeds limit"))
    } else if !validation::scheduling_valid(default_scheduling(raw)) {
        Some(fault::input_fault("scheduling limits are invalid"))
    } else if first_subject_fault(raw.subject_scheduling@) is Some {
        first_subject_fault(raw.subject_scheduling@)
    } else if permit_wait(raw) == 0 || permit_wait(raw) > MAXIMUM_BACKEND_PERMIT_WAIT_SECONDS {
        Some(fault::input_fault("backend permit wait is invalid"))
    } else if option_local_fault(raw.local) is Some {
        option_local_fault(raw.local)
    } else if validation::ssh_fault(raw.static_ssh@) is Some {
        validation::ssh_fault(raw.static_ssh@)
    } else if validation::nomad_fault(
        raw.nomad@,
        validation::configured_url(raw.nomad_callback),
    ) is Some {
        validation::nomad_fault(raw.nomad@, validation::configured_url(raw.nomad_callback))
    } else if !configured_names(raw).no_duplicates() {
        Some(fault::input_fault("backend name is ambiguous"))
    } else {
        None
    }
}

/// The settings are those that are configured, with the defaults of the others.
pub open spec fn config_matches(
    made: ServiceConfig,
    raw: RawServiceConfig,
    environment: Environment,
) -> bool {
    let listed = credentials(raw, environment);
    &&& disconnect_policy(raw, environment) == Ok::<String, Fault>(made.running_disconnect_policy)
    &&& retention_seconds(raw, environment) == Ok::<nat, Fault>(made.output_retention.seconds as nat)
    &&& made.output_retention.nanoseconds == 0
    &&& retained_bytes(raw, environment) == Ok::<nat, Fault>(
        made.maximum_retained_input_bytes as nat,
    )
    &&& publisher(raw.cache_publication) == Ok::<Option<CachePublisher>, Fault>(
        made.cache_publisher,
    )
    &&& database(raw, environment) == Ok::<Option<String>, Fault>(made.database_url)
    &&& made.ownership_renewal_interval == Span::spec_seconds(renewal_seconds(raw))
    &&& made.ownership_lease_duration == Span::spec_seconds(lease_seconds(raw))
    &&& socket(raw, environment) == Ok::<Option<String>, Fault>(made.ipc_socket)
    &&& session_limit(raw, environment) == Ok::<nat, Fault>(made.maximum_ipc_sessions as nat)
    &&& validation::callback_matches(made.nomad_callback, raw.nomad_callback)
    &&& made.credential_mappings@.len() == listed.len()
    &&& forall|i: int|
        0 <= i < listed.len() ==> (#[trigger] made.credential_mappings@[i]).0 == listed[i].0
            && made.credential_mappings@[i].1.audit_subject == listed[i].1.audit_subject
            && made.credential_mappings@[i].1.quota_subject == listed[i].1.quota_subject
    &&& made.default_scheduling_limits.queued() == default_scheduling(raw).maximum_queued_builds
    &&& made.default_scheduling_limits.active() == default_scheduling(raw).maximum_active_builds
    &&& made.subject_scheduling_limits@.len() == raw.subject_scheduling@.len()
    &&& forall|i: int|
        0 <= i < raw.subject_scheduling@.len() ==> (
        #[trigger] made.subject_scheduling_limits@[i]).0 == raw.subject_scheduling@[i].0
            && made.subject_scheduling_limits@[i].1.queued()
            == raw.subject_scheduling@[i].1.maximum_queued_builds
            && made.subject_scheduling_limits@[i].1.active()
            == raw.subject_scheduling@[i].1.maximum_active_builds
    &&& made.backend_permit_wait == Span::spec_seconds(permit_wait(raw))
    &&& made.local_backend == (match raw.local {
        Some(local) => Some(
            LocalBackendConfig {
                target: BackendTarget {
                    name: local.name,
                    kind: model::BackendKind::Local,
                    system: local.system,
                    features: local.supported_features,
                },
                maximum_concurrent_builds: local.maximum_concurrent_builds,
            },
        ),
        None => None,
    })
    &&& made.static_ssh_backends@ == raw.static_ssh@.map_values(
        |one: RawStaticSshBackendConfig| validation::ssh_backend_of(one),
    )
    &&& made.nomad_backends@.len() == raw.nomad@.len()
    &&& forall|i: int|
        0 <= i < raw.nomad@.len() ==> validation::nomad_backend_matches(
            #[trigger] made.nomad_backends@[i],
            raw.nomad@[i],
            validation::configured_url(raw.nomad_callback),
        )
}

fn build_retention(set: &Result<Option<String>, Fault>, configured: Option<u64>, default: u64) -> (
seconds: Result<u64, Fault>)
    ensures
        forall|raw: RawServiceConfig, environment: Environment|
            raw.output_retention_seconds == configured && environment.output_retention_seconds
                == *set && environment.default_output_retention_seconds == default ==> match seconds
            {
                Ok(chosen) => #[trigger] retention_seconds(raw, environment) == Ok::<nat, Fault>(
                    chosen as nat,
                ),
                Err(refusal) => retention_seconds(raw, environment) == Err::<nat, Fault>(refusal),
            },
{
    let chosen: u64 = match set {
        Err(refusal) => {
            return Err(*refusal);
        },
        Ok(Some(written)) => {
            let characters = text::characters(written.as_str());
            match text::parse_unsigned(characters.as_slice(), u64::MAX) {
                Some(seconds) => seconds,
                None => {
                    return Err(invalid_input("output retention is invalid"));
                },
            }
        },
        Ok(None) => match configured {
            Some(seconds) => seconds,
            None => {
                return Ok(default);
            },
        },
    };
    if chosen < MINIMUM_OUTPUT_RETENTION_SECONDS || chosen > MAXIMUM_OUTPUT_RETENTION_SECONDS {
        return Err(invalid_input("output retention is invalid"));
    }
    Ok(chosen)
}

fn build_retained_bytes(
    set: &Result<Option<String>, Fault>,
    configured: Option<u64>,
    default: u64,
) -> (bytes: Result<u64, Fault>)
    ensures
        forall|raw: RawServiceConfig, environment: Environment|
            raw.maximum_retained_input_bytes == configured
                && environment.maximum_retained_input_bytes == *set
                && environment.default_maximum_retained_input_bytes == default ==> match bytes {
                Ok(chosen) => #[trigger] retained_bytes(raw, environment) == Ok::<nat, Fault>(
                    chosen as nat,
                ),
                Err(refusal) => retained_bytes(raw, environment) == Err::<nat, Fault>(refusal),
            },
{
    let chosen: u64 = match set {
        Err(refusal) => {
            return Err(*refusal);
        },
        Ok(Some(written)) => {
            let characters = text::characters(written.as_str());
            match text::parse_unsigned(characters.as_slice(), u64::MAX) {
                Some(bytes) => {
                    if bytes == 0 {
                        return Err(invalid_input("retained input byte limit is invalid"));
                    }
                    bytes
                },
                None => {
                    return Err(invalid_input("retained input byte limit is invalid"));
                },
            }
        },
        Ok(None) => match configured {
            Some(bytes) => bytes,
            None => default,
        },
    };
    if chosen > MAXIMUM_RETAINED_INPUT_BYTES {
        return Err(invalid_input("retained input byte limit is invalid"));
    }
    Ok(chosen)
}

fn build_sessions(set: &Result<Option<String>, Fault>, configured: Option<usize>) -> (sessions:
    Result<usize, Fault>)
    ensures
        forall|raw: RawServiceConfig, environment: Environment|
            raw.maximum_sessions == configured && environment.maximum_sessions == *set
                ==> match sessions {
                Ok(chosen) => #[trigger] session_limit(raw, environment) == Ok::<nat, Fault>(
                    chosen as nat,
                ),
                Err(refusal) => session_limit(raw, environment) == Err::<nat, Fault>(refusal),
            },
{
    let chosen: usize = match set {
        Err(refusal) => {
            return Err(*refusal);
        },
        Ok(Some(written)) => {
            let characters = text::characters(written.as_str());
            match text::parse_unsigned(characters.as_slice(), usize::MAX as u64) {
                Some(sessions) => {
                    if sessions == 0 {
                        return Err(invalid_input("IPC session limit is invalid"));
                    }
                    sessions as usize
                },
                None => {
                    return Err(invalid_input("IPC session limit is invalid"));
                },
            }
        },
        Ok(None) => configured.unwrap_or(DEFAULT_MAXIMUM_IPC_SESSIONS),
    };
    if chosen > MAXIMUM_IPC_SESSIONS {
        return Err(invalid_input("IPC session limit is invalid"));
    }
    Ok(chosen)
}

fn build_publisher(raw: Option<RawCachePublication>) -> (made: Result<
    Option<CachePublisher>,
    Fault,
>)
    ensures
        made == publisher(raw),
{
    match raw {
        None => Ok(None),
        Some(config) => {
            let timeout = Span::from_seconds(
                config.timeout_seconds.unwrap_or(DEFAULT_PUBLICATION_TIMEOUT_SECONDS),
            );
            let maximum_input_bytes: usize = config.maximum_input_bytes.unwrap_or(
                DEFAULT_PUBLICATION_INPUT_BYTES,
            );
            match CachePublisher::new(
                config.executable,
                config.arguments,
                timeout,
                maximum_input_bytes,
            ) {
                Ok(made) => Ok(Some(made)),
                Err(refusal) => Err(refusal),
            }
        },
    }
}

fn build_checked(checked: Option<Checked>) -> (value: Result<Option<String>, Fault>)
    ensures
        match validation::option_refusal(checked) {
            Some(refusal) => value == Err::<Option<String>, Fault>(refusal),
            None => value == Ok::<Option<String>, Fault>(validation::option_value(checked)),
        },
{
    match checked {
        Some(file) => match file.refusal {
            Some(refusal) => Err(refusal),
            None => Ok(Some(file.value)),
        },
        None => Ok(None),
    }
}

fn build_subjects(raw: Vec<(String, RawSchedulingLimits)>) -> (made: Result<
    Vec<(String, SchedulingLimits)>,
    Fault,
>)
    ensures
        match made {
            Ok(limits) => {
                &&& first_subject_fault(raw@) is None
                &&& limits@.len() == raw@.len()
                &&& model::sorted_keys(raw@) ==> model::sorted_keys(limits@)
                &&& forall|i: int|
                    0 <= i < raw@.len() ==> (#[trigger] limits@[i]).0 == raw@[i].0
                        && limits@[i].1.queued() == raw@[i].1.maximum_queued_builds
                        && limits@[i].1.active() == raw@[i].1.maximum_active_builds
            },
            Err(refusal) => first_subject_fault(raw@) == Some(refusal),
        },
{
    let ghost whole = raw@;
    let mut limits: Vec<(String, SchedulingLimits)> = Vec::new();
    assert(whole.take(0) =~= Seq::<(String, RawSchedulingLimits)>::empty());
    for entry in iter: raw
        invariant
            iter.seq() == whole,
            limits@.len() == iter.index(),
            first_subject_fault(whole.take(iter.index())) is None,
            forall|i: int|
                0 <= i < iter.index() ==> (#[trigger] limits@[i]).0 == whole[i].0
                    && limits@[i].1.queued() == whole[i].1.maximum_queued_builds
                    && limits@[i].1.active() == whole[i].1.maximum_active_builds,
    {
        let (subject, configured) = entry;
        proof {
            let i = iter.index();
            assert(whole.take(i + 1).drop_last() =~= whole.take(i));
            if first_subject_fault(whole.take(i + 1)) is Some {
                subject_fault_stays(whole, i + 1);
            }
        }
        let subject = validate_subject(subject, "quota subject is invalid")?;
        let made = validate_scheduling_limits(configured)?;
        limits.push((subject, made));
    }
    assert(whole.take(whole.len() as int) =~= whole);
    Ok(limits)
}

impl ServiceConfig {
    /// Whatever is set by key is sorted, and no two backends share a name.
    pub open spec fn well_formed(self) -> bool {
        &&& validation::backend_names(
            self.local_backend,
            self.static_ssh_backends@,
            self.nomad_backends@,
        ).no_duplicates()
        &&& model::sorted_keys(self.credential_mappings@)
        &&& model::sorted_keys(self.subject_scheduling_limits@)
        &&& forall|i: int|
            0 <= i < self.nomad_backends@.len() ==> (
            #[trigger] self.nomad_backends@[i]).well_formed()
    }

    /// Puts the settings together, or says why they are refused.
    #[verifier::rlimit(80)]
    pub fn build(raw: RawServiceConfig, environment: Environment) -> (made: Result<Self, Fault>)
        requires
            raw.well_formed(),
            environment.well_formed(),
        ensures
            match made {
                Ok(config) => build_fault(raw, environment) is None && config_matches(
                    config,
                    raw,
                    environment,
                ) && config.well_formed(),
                Err(refusal) => build_fault(raw, environment) == Some(refusal),
            },
    {
        let listed = match environment.credentials {
            Err(refusal) => {
                return Err(refusal);
            },
            Ok(Some(replacement)) => replacement,
            Ok(None) => raw.credentials,
        };
        assert(listed@ == credentials(raw, environment));
        let retention = build_retention(
            &environment.output_retention_seconds,
            raw.output_retention_seconds,
            environment.default_output_retention_seconds,
        );
        assert(match retention {
            Ok(seconds) => retention_seconds(raw, environment) == Ok::<nat, Fault>(seconds as nat),
            Err(refusal) => retention_seconds(raw, environment) == Err::<nat, Fault>(refusal),
        });
        let output_retention_seconds: u64 = retention?;
        let retained = build_retained_bytes(
            &environment.maximum_retained_input_bytes,
            raw.maximum_retained_input_bytes,
            environment.default_maximum_retained_input_bytes,
        );
        assert(match retained {
            Ok(bytes) => retained_bytes(raw, environment) == Ok::<nat, Fault>(bytes as nat),
            Err(refusal) => retained_bytes(raw, environment) == Err::<nat, Fault>(refusal),
        });
        let maximum_retained_input_bytes: u64 = retained?;
        let cache_publisher = build_publisher(raw.cache_publication)?;
        let chosen_policy = match environment.running_disconnect_policy {
            Err(refusal) => {
                return Err(refusal);
            },
            Ok(Some(set)) => Some(set),
            Ok(None) => raw.running_disconnect_policy,
        };
        let running_disconnect_policy = match build_checked(chosen_policy)? {
            Some(policy) => policy,
            None => environment.default_running_disconnect_policy,
        };
        let database_url = match environment.database_url {
            Err(refusal) => {
                return Err(refusal);
            },
            Ok(Some(url)) => {
                if url.as_str().is_empty() {
                    return Err(invalid_input("database URL is invalid"));
                }
                Some(url)
            },
            Ok(None) => build_checked(raw.database_url)?,
        };
        let renewal: u64 = raw.ownership_renewal_seconds.unwrap_or(
            DEFAULT_OWNERSHIP_RENEWAL_SECONDS,
        );
        let lease: u64 = raw.ownership_lease_seconds.unwrap_or(DEFAULT_OWNERSHIP_LEASE_SECONDS);
        if renewal == 0 || lease > MAXIMUM_OWNERSHIP_LEASE_SECONDS || renewal > lease / 3 {
            assert(!ownership_valid(raw));
            return Err(invalid_input("database ownership durations are invalid"));
        }
        let ipc_socket = match environment.ipc_socket {
            Err(refusal) => {
                return Err(refusal);
            },
            Ok(Some(set)) => Some(set),
            Ok(None) => raw.ipc_socket,
        };
        if let Some(path) = &ipc_socket {
            if path.as_str().is_empty() || path.as_str().get_char(0) != '/' {
                return Err(invalid_input("IPC socket path is invalid"));
            }
        }
        let sessions = build_sessions(&environment.maximum_sessions, raw.maximum_sessions);
        assert(match sessions {
            Ok(count) => session_limit(raw, environment) == Ok::<nat, Fault>(count as nat),
            Err(refusal) => session_limit(raw, environment) == Err::<nat, Fault>(refusal),
        });
        let maximum_ipc_sessions: usize = sessions?;
        let nomad_callback = validate_nomad_callback(raw.nomad_callback)?;
        let credential_mappings = validate_mappings(listed)?;
        if raw.subject_scheduling.len() > MAXIMUM_QUOTA_SUBJECTS {
            return Err(invalid_input("scheduling subject count exceeds limit"));
        }
        let configured_default = match raw.default_scheduling {
            Some(limits) => limits,
            None => RawSchedulingLimits {
                maximum_queued_builds: DEFAULT_MAXIMUM_QUEUED_BUILDS,
                maximum_active_builds: DEFAULT_MAXIMUM_ACTIVE_BUILDS,
            },
        };
        let default_scheduling_limits = validate_scheduling_limits(configured_default)?;
        let subject_scheduling_limits = build_subjects(raw.subject_scheduling)?;
        let wait: u64 = raw.permit_wait_seconds.unwrap_or(DEFAULT_BACKEND_PERMIT_WAIT_SECONDS);
        if wait == 0 || wait > MAXIMUM_BACKEND_PERMIT_WAIT_SECONDS {
            return Err(invalid_input("backend permit wait is invalid"));
        }
        let local_backend = match raw.local {
            Some(local) => Some(validate_local_backend(local)?),
            None => None,
        };
        let static_ssh_backends = validate_static_ssh_backends(raw.static_ssh)?;
        let nomad_backends = validate_nomad_backends(
            raw.nomad,
            nomad_callback.public_url.as_str(),
        )?;
        assert(validation::backend_names(local_backend, static_ssh_backends@, nomad_backends@)
            =~= configured_names(raw));
        validate_unique_backend_names(
            local_backend.as_ref(),
            &static_ssh_backends,
            &nomad_backends,
        )?;
        Ok(
            ServiceConfig {
                running_disconnect_policy,
                output_retention: Span::from_seconds(output_retention_seconds),
                maximum_retained_input_bytes,
                cache_publisher,
                database_url,
                ownership_renewal_interval: Span::from_seconds(renewal),
                ownership_lease_duration: Span::from_seconds(lease),
                ipc_socket,
                maximum_ipc_sessions,
                nomad_callback,
                credential_mappings,
                default_scheduling_limits,
                subject_scheduling_limits,
                backend_permit_wait: Span::from_seconds(wait),
                local_backend,
                static_ssh_backends,
                nomad_backends,
            },
        )
    }
}

impl Default for RawServiceConfig {
    /// Nothing is configured.
    fn default() -> (raw: Self)
        ensures
            raw.output_retention_seconds is None,
            raw.maximum_retained_input_bytes is None,
            raw.cache_publication is None,
            raw.running_disconnect_policy is None,
            raw.database_url is None,
            raw.ownership_renewal_seconds is None,
            raw.ownership_lease_seconds is None,
            raw.ipc_socket is None,
            raw.maximum_sessions is None,
            raw.nomad_callback.bind == Ok::<Option<SocketAddress>, Fault>(None),
            raw.nomad_callback.public_url is None,
            raw.nomad_callback.maximum_connections is None,
            raw.nomad_callback.maximum_header_bytes is None,
            raw.nomad_callback.maximum_body_bytes is None,
            raw.nomad_callback.authentication_request_timeout_seconds is None,
            raw.nomad_callback.shutdown_drain_timeout_seconds is None,
            raw.nomad_callback.maximum_jwks_bytes is None,
            raw.nomad_callback.maximum_retained_nonces is None,
            raw.credentials@.len() == 0,
            raw.default_scheduling is None,
            raw.subject_scheduling@.len() == 0,
            raw.permit_wait_seconds is None,
            raw.local is None,
            raw.static_ssh@.len() == 0,
            raw.nomad@.len() == 0,
    {
        RawServiceConfig {
            output_retention_seconds: None,
            maximum_retained_input_bytes: None,
            cache_publication: None,
            running_disconnect_policy: None,
            database_url: None,
            ownership_renewal_seconds: None,
            ownership_lease_seconds: None,
            ipc_socket: None,
            maximum_sessions: None,
            nomad_callback: RawNomadCallbackConfig {
                bind: Ok(None),
                public_url: None,
                maximum_connections: None,
                maximum_header_bytes: None,
                maximum_body_bytes: None,
                authentication_request_timeout_seconds: None,
                shutdown_drain_timeout_seconds: None,
                maximum_jwks_bytes: None,
                maximum_retained_nonces: None,
            },
            credentials: Vec::new(),
            default_scheduling: None,
            subject_scheduling: Vec::new(),
            permit_wait_seconds: None,
            local: None,
            static_ssh: Vec::new(),
            nomad: Vec::new(),
        }
    }
}

/// What was found where the configuration is looked for.
#[derive(Debug)]
pub enum ConfigFile {
    /// The file was read: what it configures, or why it could not be understood.
    Read(Result<RawServiceConfig, Fault>),
    Missing,
    Unreadable,
}

/// Two lists of mappings agree.
pub open spec fn same_mappings(
    left: Seq<(String, CredentialMapping)>,
    right: Seq<(String, CredentialMapping)>,
) -> bool {
    &&& left.len() == right.len()
    &&& forall|i: int|
        0 <= i < left.len() ==> (#[trigger] left[i]).0@ == right[i].0@ && left[i].1.same_as(
            right[i].1,
        )
}

fn equal_mappings(
    left: &Vec<(String, CredentialMapping)>,
    right: &Vec<(String, CredentialMapping)>,
) -> (same: bool)
    ensures
        same == same_mappings(left@, right@),
{
    if left.len() != right.len() {
        return false;
    }
    let mut i: usize = 0;
    while i < left.len()
        invariant
            left@.len() == right@.len(),
            i <= left@.len(),
            forall|j: int|
                0 <= j < i ==> (#[trigger] left@[j]).0@ == right@[j].0@ && left@[j].1.same_as(
                    right@[j].1,
                ),
        decreases left@.len() - i,
    {
        if !text::same_text(left[i].0.as_str(), right[i].0.as_str()) || !left[i].1.equals(
            &right[i].1,
        ) {
            return false;
        }
        i += 1;
    }
    true
}

/// Two lists of limits agree.
pub open spec fn same_limits(
    left: Seq<(String, SchedulingLimits)>,
    right: Seq<(String, SchedulingLimits)>,
) -> bool {
    &&& left.len() == right.len()
    &&& forall|i: int|
        0 <= i < left.len() ==> (#[trigger] left[i]).0@ == right[i].0@ && left[i].1 == right[i].1
}

fn equal_limits(
    left: &Vec<(String, SchedulingLimits)>,
    right: &Vec<(String, SchedulingLimits)>,
) -> (same: bool)
    ensures
        same == same_limits(left@, right@),
{
    if left.len() != right.len() {
        return false;
    }
    let mut i: usize = 0;
    while i < left.len()
        invariant
            left@.len() == right@.len(),
            i <= left@.len(),
            forall|j: int|
                0 <= j < i ==> (#[trigger] left@[j]).0@ == right@[j].0@ && left@[j].1
                    == right@[j].1,
        decreases left@.len() - i,
    {
        if !text::same_text(left[i].0.as_str(), right[i].0.as_str()) || !left[i].1.equals(
            &right[i].1,
        ) {
            return false;
        }
        i += 1;
    }
    true
}

/// Two lists of backends agree.
pub open spec fn same_nomad_backends(
    left: Seq<NomadBackendConfig>,
    right: Seq<NomadBackendConfig>,
) -> bool {
    &&& left.len() == right.len()
    &&& forall|i: int| 0 <= i < left.len() ==> (#[trigger] left[i]).same_as(right[i])
}

fn equal_nomad_backends(left: &Vec<NomadBackendConfig>, right: &Vec<NomadBackendConfig>) -> (same:
    bool)
    requires
        forall|i: int| 0 <= i < left@.len() ==> (#[trigger] left@[i]).well_formed(),
        forall|i: int| 0 <= i < right@.len() ==> (#[trigger] right@[i]).well_formed(),
    ensures
        same == same_nomad_backends(left@, right@),
{
    if left.len() != right.len() {
        return false;
    }
    let mut i: usize = 0;
    while i < left.len()
        invariant
            forall|j: int| 0 <= j < left@.len() ==> (#[trigger] left@[j]).well_formed(),
            forall|j: int| 0 <= j < right@.len() ==> (#[trigger] right@[j]).well_formed(),
            left@.len() == right@.len(),
            i <= left@.len(),
            forall|j: int| 0 <= j < i ==> (#[trigger] left@[j]).same_as(right@[j]),
        decreases left@.len() - i,
    {
        if !left[i].equals(&right[i]) {
            return false;
        }
        i += 1;
    }
    true
}

/// The place of the first backend with a name.
pub open spec fn ssh_place(backends: Seq<StaticSshBackendConfig>, name: Seq<char>) -> Option<int>
    decreases backends.len(),
{
    if backends.len() == 0 {
        None
    } else {
        match ssh_place(backends.drop_last(), name) {
            Some(place) => Some(place),
            None => if backends.last().target.name@ == name {
                Some(backends.len() - 1)
            } else {
                None
            },
        }
    }
}

proof fn ssh_place_stays(backends: Seq<StaticSshBackendConfig>, name: Seq<char>, count: int)
    requires
        0 <= count <= backends.len(),
        ssh_place(backends.take(count), name) is Some,
    ensures
        ssh_place(backends, name) == ssh_place(backends.take(count), name),
    decreases backends.len(),
{
    if count == backends.len() {
        assert(backends.take(count) =~= backends);
    } else {
        assert(backends.drop_last().take(count) =~= backends.take(count));
        ssh_place_stays(backends.drop_last(), name, count);
    }
}

fn find_ssh(backends: &Vec<StaticSshBackendConfig>, name: &str) -> (place: Option<usize>)
    ensures
        match place {
            Some(found) => ssh_place(backends@, name@) == Some(found as int) && found
                < backends@.len(),
            None => ssh_place(backends@, name@) is None,
        },
{
    let mut i: usize = 0;
    assert(backends@.take(0) =~= Seq::<StaticSshBackendConfig>::empty());
    while i < backends.len()
        invariant
            i <= backends@.len(),
            ssh_place(backends@.take(i as int), name@) is None,
        decreases backends@.len() - i,
    {
        assert(backends@.take(i + 1).drop_last() =~= backends@.take(i as int));
        if text::same_text(backends[i].target.name.as_str(), name) {
            proof {
                ssh_place_stays(backends@, name@, i + 1);
            }
            return Some(i);
        }
        i += 1;
    }
    assert(backends@.take(backends@.len() as int) =~= backends@);
    None
}

/// How many backends have a name that no backend of another list has.
pub open spec fn count_missing(
    backends: Seq<StaticSshBackendConfig>,
    others: Seq<StaticSshBackendConfig>,
) -> nat
    decreases backends.len(),
{
    if backends.len() == 0 {
        0
    } else {
        count_missing(backends.drop_last(), others) + if ssh_place(
            others,
            backends.last().target.name@,
        ) is None {
            1nat
        } else {
            0nat
        }
    }
}

fn missing(backends: &Vec<StaticSshBackendConfig>, others: &Vec<StaticSshBackendConfig>) -> (count:
    usize)
    ensures
        count == count_missing(backends@, others@),
{
    let mut count: usize = 0;
    let mut i: usize = 0;
    assert(backends@.take(0) =~= Seq::<StaticSshBackendConfig>::empty());
    while i < backends.len()
        invariant
            i <= backends@.len(),
            count <= i,
            count == count_missing(backends@.take(i as int), others@),
        decreases backends@.len() - i,
    {
        assert(backends@.take(i + 1).drop_last() =~= backends@.take(i as int));
        if find_ssh(others, backends[i].target.name.as_str()).is_none() {
            count += 1;
        }
        i += 1;
    }
    assert(backends@.take(backends@.len() as int) =~= backends@);
    count
}

/// Everything but the backends over SSH agrees.
pub open spec fn same_fixed_settings(left: ServiceConfig, right: ServiceConfig) -> bool {
    &&& left.running_disconnect_policy@ == right.running_disconnect_policy@
    &&& left.output_retention == right.output_retention
    &&& left.maximum_retained_input_bytes == right.maximum_retained_input_bytes
    &&& match (left.cache_publisher, right.cache_publisher) {
        (None, None) => true,
        (Some(left), Some(right)) => left.same_as(right),
        _ => false,
    }
    &&& model::same_option(left.database_url, right.database_url)
    &&& left.ownership_renewal_interval == right.ownership_renewal_interval
    &&& left.ownership_lease_duration == right.ownership_lease_duration
    &&& path::same_optional_path(left.ipc_socket, right.ipc_socket)
    &&& left.maximum_ipc_sessions == right.maximum_ipc_sessions
    &&& left.nomad_callback.same_as(right.nomad_callback)
    &&& same_mappings(left.credential_mappings@, right.credential_mappings@)
    &&& left.default_scheduling_limits == right.default_scheduling_limits
    &&& same_limits(left.subject_scheduling_limits@, right.subject_scheduling_limits@)
    &&& left.backend_permit_wait == right.backend_permit_wait
    &&& match (left.local_backend, right.local_backend) {
        (None, None) => true,
        (Some(left), Some(right)) => left.same_as(right),
        _ => false,
    }
    &&& same_nomad_backends(left.nomad_backends@, right.nomad_backends@)
}

/// A backend that is in both lists is the same in both.
pub open spec fn kept_backends_agree(
    current: Seq<StaticSshBackendConfig>,
    replacement: Seq<StaticSshBackendConfig>,
) -> bool {
    forall|i: int|
        0 <= i < current.len() ==> match ssh_place(
            replacement,
            (#[trigger] current[i]).target.name@,
        ) {
            Some(place) => replacement[place].same_as(current[i]),
            None => true,
        }
}

/// Why settings cannot be reloaded in place of others.
pub open spec fn reload_fault(current: ServiceConfig, next: ServiceConfig) -> Option<Fault> {
    if !same_fixed_settings(current, next) {
        Some(fault::input_fault("configuration reload changes immutable settings"))
    } else if !kept_backends_agree(current.static_ssh_backends@, next.static_ssh_backends@) {
        Some(fault::input_fault("configuration reload changes an existing static SSH backend"))
    } else {
        None
    }
}

/// What a reload adds and removes: the backends over SSH whose names are only in the one or only
/// in the other settings.
pub open spec fn are_changes(
    current: ServiceConfig,
    next: ServiceConfig,
    changes: StaticSshReloadChanges,
) -> bool {
    &&& changes.added == count_missing(next.static_ssh_backends@, current.static_ssh_backends@)
    &&& changes.removed == count_missing(current.static_ssh_backends@, next.static_ssh_backends@)
}

/// The first mapping of a credential.
pub open spec fn mapping_place(
    mappings: Seq<(String, CredentialMapping)>,
    credential_id: Seq<char>,
) -> Option<int>
    decreases mappings.len(),
{
    if mappings.len() == 0 {
        None
    } else if mappings[0].0@ == credential_id {
        Some(0)
    } else {
        match mapping_place(mappings.drop_first(), credential_id) {
            Some(place) => Some(place + 1),
            None => None,
        }
    }
}

/// The first limits of a subject.
pub open spec fn limits_place(
    limits: Seq<(String, SchedulingLimits)>,
    subject: Seq<char>,
) -> Option<int>
    decreases limits.len(),
{
    if limits.len() == 0 {
        None
    } else if limits[0].0@ == subject {
        Some(0)
    } else {
        match limits_place(limits.drop_first(), subject) {
            Some(place) => Some(place + 1),
            None => None,
        }
    }
}

/// All backends: the local one, then those over SSH, then those on Nomad.
pub open spec fn targets_of(config: ServiceConfig) -> Seq<BackendTarget> {
    (match config.local_backend {
        Some(backend) => seq![backend.target],
        None => seq![],
    }) + config.static_ssh_backends@.map_values(|backend: StaticSshBackendConfig| backend.target)
        + config.nomad_backends@.map_values(|backend: NomadBackendConfig| backend.target)
}

impl ServiceConfig {
    /// Makes the settings from what was found at the configured place. Where no place is
    /// configured, the default one may be empty.
    pub fn load(
        file: ConfigFile,
        required: bool,
        environment: Environment,
    ) -> (made: Result<Self, Fault>)
        requires
            file matches ConfigFile::Read(Ok(raw)) ==> raw.well_formed(),
            environment.well_formed(),
        ensures
            made matches Ok(config) ==> config.well_formed(),
            match file {
                ConfigFile::Read(Ok(raw)) => match made {
                    Ok(config) => build_fault(raw, environment) is None && config_matches(
                        config,
                        raw,
                        environment,
                    ),
                    Err(refusal) => build_fault(raw, environment) == Some(refusal),
                },
                ConfigFile::Read(Err(refusal)) => made == Err::<ServiceConfig, Fault>(refusal),
                ConfigFile::Missing => if required {
                    made == Err::<ServiceConfig, Fault>(
                        fault::input_fault("service configuration could not be read"),
                    )
                } else {
                    exists|raw: RawServiceConfig| #[trigger]
                        call_ensures(RawServiceConfig::default, (), raw) && match made {
                            Ok(config) => build_fault(raw, environment) is None && config_matches(
                                config,
                                raw,
                                environment,
                            ),
                            Err(refusal) => build_fault(raw, environment) == Some(refusal),
                        }
                },
                ConfigFile::Unreadable => made == Err::<ServiceConfig, Fault>(
                    fault::input_fault("service configuration could not be read"),
                ),
            },
    {
        match file {
            ConfigFile::Read(Ok(raw)) => ServiceConfig::build(raw, environment),
            ConfigFile::Read(Err(refusal)) => Err(refusal),
            ConfigFile::Missing => {
                if required {
                    return Err(invalid_input("service configuration could not be read"));
                }
                ServiceConfig::build(RawServiceConfig::default(), environment)
            },
            ConfigFile::Unreadable => Err(
                invalid_input("service configuration could not be read"),
            ),
        }
    }

    /// Makes the settings from what was found at the default place.
    pub fn load_from_default(file: ConfigFile, environment: Environment) -> (made: Result<
        Self,
        Fault,
    >)
        requires
            file matches ConfigFile::Read(Ok(raw)) ==> raw.well_formed(),
            environment.well_formed(),
        ensures
            made matches Ok(config) ==> config.well_formed(),
            match file {
                ConfigFile::Read(Ok(raw)) => match made {
                    Ok(config) => build_fault(raw, environment) is None && config_matches(
                        config,
                        raw,
                        environment,
                    ),
                    Err(refusal) => build_fault(raw, environment) == Some(refusal),
                },
                ConfigFile::Read(Err(refusal)) => made == Err::<ServiceConfig, Fault>(refusal),
                ConfigFile::Missing => exists|raw: RawServiceConfig| #[trigger]
                    call_ensures(RawServiceConfig::default, (), raw) && match made {
                        Ok(config) => build_fault(raw, environment) is None && config_matches(
                            config,
                            raw,
                            environment,
                        ),
                        Err(refusal) => build_fault(raw, environment) == Some(refusal),
                    },
                ConfigFile::Unreadable => made == Err::<ServiceConfig, Fault>(
                    fault::input_fault("service configuration could not be read"),
                ),
            },
    {
        ServiceConfig::load(file, false, environment)
    }

    pub fn running_disconnect_policy(&self) -> (running_disconnect_policy: &str)
        ensures
            running_disconnect_policy@ == self.running_disconnect_policy@,
    {
        self.running_disconnect_policy.as_str()
    }

    pub fn output_retention(&self) -> (output_retention: Span)
        ensures
            output_retention == self.output_retention,
    {
        self.output_retention
    }

    pub fn maximum_retained_input_bytes(&self) -> (maximum_retained_input_bytes: u64)
        ensures
            maximum_retained_input_bytes == self.maximum_retained_input_bytes,
    {
        self.maximum_retained_input_bytes
    }

    pub fn cache_publisher(&self) -> (cache_publisher: Option<&CachePublisher>)
        ensures
            match self.cache_publisher {
                Some(value) => cache_publisher == Some(&value),
                None => cache_publisher is None,
            },
    {
        self.cache_publisher.as_ref()
    }

    pub fn database_url(&self) -> (database_url: Option<&str>)
        ensures
            match self.database_url {
                Some(value) => database_url is Some && database_url->0@ == value@,
                None => database_url is None,
            },
    {
        match &self.database_url {
            Some(value) => Some(value.as_str()),
            None => None,
        }
    }

    pub fn require_database_url(&self) -> (value: Result<&str, Fault>)
        ensures
            match self.database_url {
                Some(set) => value is Ok && value->Ok_0@ == set@,
                None => value == Err::<&str, Fault>(fault::input_fault("database URL is not configured")),
            },
    {
        match &self.database_url {
            Some(value) => Ok(value.as_str()),
            None => Err(invalid_input("database URL is not configured")),
        }
    }

    pub fn ownership_renewal_interval(&self) -> (ownership_renewal_interval: Span)
        ensures
            ownership_renewal_interval == self.ownership_renewal_interval,
    {
        self.ownership_renewal_interval
    }

    pub fn ownership_lease_duration(&self) -> (ownership_lease_duration: Span)
        ensures
            ownership_lease_duration == self.ownership_lease_duration,
    {
        self.ownership_lease_duration
    }

    pub fn ipc_socket(&self) -> (ipc_socket: Option<&str>)
        ensures
            match self.ipc_socket {
                Some(value) => ipc_socket is Some && ipc_socket->0@ == value@,
                None => ipc_socket is None,
            },
    {
        match &self.ipc_socket {
            Some(value) => Some(value.as_str()),
            None => None,
        }
    }

    pub fn require_ipc_socket(&self) -> (value: Result<&str, Fault>)
        ensures
            match self.ipc_socket {
                Some(set) => value is Ok && value->Ok_0@ == set@,
                None => value == Err::<&str, Fault>(fault::input_fault("IPC socket is not configured")),
            },
    {
        match &self.ipc_socket {
            Some(value) => Ok(value.as_str()),
            None => Err(invalid_input("IPC socket is not configured")),
        }
    }

    pub fn maximum_ipc_sessions(&self) -> (maximum_ipc_sessions: usize)
        ensures
            maximum_ipc_sessions == self.maximum_ipc_sessions,
    {
        self.maximum_ipc_sessions
    }

    pub fn nomad_callback(&self) -> (callback: &NomadCallbackConfig)
        ensures
            *callback == self.nomad_callback,
    {
        &self.nomad_callback
    }

    /// The subjects of a credential, if it is mapped.
    pub fn credential_mapping(&self, credential_id: &str) -> (mapping: Option<&CredentialMapping>)
        ensures
            match mapping_place(self.credential_mappings@, credential_id@) {
                Some(place) => mapping == Some(&self.credential_mappings@[place].1),
                None => mapping is None,
            },
    {
        let ghost mappings = self.credential_mappings@;
        let mut i: usize = 0;
        assert(mappings.skip(0) =~= mappings);
        while i < self.credential_mappings.len()
            invariant
                mappings == self.credential_mappings@,
                i <= mappings.len(),
                match mapping_place(mappings.skip(i as int), credential_id@) {
                    Some(place) => mapping_place(mappings, credential_id@) == Some(place + i),
                    None => mapping_place(mappings, credential_id@) is None,
                },
            decreases mappings.len() - i,
        {
            assert(mappings.skip(i as int).drop_first() =~= mappings.skip(i + 1));
            assert(mappings.skip(i as int)[0] == mappings[i as int]);
            if text::same_text(self.credential_mappings[i].0.as_str(), credential_id) {
                return Some(&self.credential_mappings[i].1);
            }
            i += 1;
        }
        None
    }

    /// The limits of a subject: its own, or the default ones.
    pub fn scheduling_limits(&self, quota_subject: &str) -> (limits: SchedulingLimits)
        ensures
            limits == (match limits_place(self.subject_scheduling_limits@, quota_subject@) {
                Some(place) => self.subject_scheduling_limits@[place].1,
                None => self.default_scheduling_limits,
            }),
    {
        let ghost limits = self.subject_scheduling_limits@;
        let mut i: usize = 0;
        assert(limits.skip(0) =~= limits);
        while i < self.subject_scheduling_limits.len()
            invariant
                limits == self.subject_scheduling_limits@,
                i <= limits.len(),
                match limits_place(limits.skip(i as int), quota_subject@) {
                    Some(place) => limits_place(limits, quota_subject@) == Some(place + i),
                    None => limits_place(limits, quota_subject@) is None,
                },
            decreases limits.len() - i,
        {
            assert(limits.skip(i as int).drop_first() =~= limits.skip(i + 1));
            assert(limits.skip(i as int)[0] == limits[i as int]);
            if text::same_text(self.subject_scheduling_limits[i].0.as_str(), quota_subject) {
                return self.subject_scheduling_limits[i].1;
            }
            i += 1;
        }
        self.default_scheduling_limits
    }

    pub fn backend_permit_wait(&self) -> (backend_permit_wait: Span)
        ensures
            backend_permit_wait == self.backend_permit_wait,
    {
        self.backend_permit_wait
    }

    pub fn local_backend(&self) -> (local_backend: Option<&LocalBackendConfig>)
        ensures
            match self.local_backend {
                Some(value) => local_backend == Some(&value),
                None => local_backend is None,
            },
    {
        self.local_backend.as_ref()
    }

    pub fn static_ssh_backends(&self) -> (backends: &[StaticSshBackendConfig])
        ensures
            backends@ == self.static_ssh_backends@,
    {
        self.static_ssh_backends.as_slice()
    }

    pub fn nomad_backends(&self) -> (backends: &[NomadBackendConfig])
        ensures
            backends@ == self.nomad_backends@,
    {
        self.nomad_backends.as_slice()
    }

    fn same_fixed(&self, other: &ServiceConfig) -> (same: bool)
        requires
            self.well_formed(),
            other.well_formed(),
        ensures
            same == same_fixed_settings(*self, *other),
    {
        text::same_text(
            self.running_disconnect_policy.as_str(),
            other.running_disconnect_policy.as_str(),
        ) && self.output_retention == other.output_retention && self.maximum_retained_input_bytes
            == other.maximum_retained_input_bytes && (match (
            &self.cache_publisher,
            &other.cache_publisher,
        ) {
            (None, None) => true,
            (Some(left), Some(right)) => left.equals(right),
            _ => false,
        }) && equal_options(&self.database_url, &other.database_url)
            && self.ownership_renewal_interval == other.ownership_renewal_interval
            && self.ownership_lease_duration == other.ownership_lease_duration && equal_optional_paths(
            &self.ipc_socket,
            &other.ipc_socket,
        ) && self.maximum_ipc_sessions == other.maximum_ipc_sessions && self.nomad_callback.equals(
            &other.nomad_callback,
        ) && equal_mappings(&self.credential_mappings, &other.credential_mappings)
            && self.default_scheduling_limits.equals(&other.default_scheduling_limits)
            && equal_limits(&self.subject_scheduling_limits, &other.subject_scheduling_limits)
            && self.backend_permit_wait == other.backend_permit_wait && (match (
            &self.local_backend,
            &other.local_backend,
        ) {
            (None, None) => true,
            (Some(left), Some(right)) => left.equals(right),
            _ => false,
        }) && equal_nomad_backends(&self.nomad_backends, &other.nomad_backends)
    }

    /// Lets a reload pass that only adds or removes backends over SSH, and counts them.
    pub fn validate_static_ssh_reload(&self, replacement: &ServiceConfig) -> (changes: Result<
        StaticSshReloadChanges,
        Fault,
    >)
        requires
            self.well_formed(),
            replacement.well_formed(),
        ensures
            match reload_fault(*self, *replacement) {
                Some(refusal) => changes == Err::<StaticSshReloadChanges, Fault>(refusal),
                None => changes is Ok && are_changes(*self, *replacement, changes->Ok_0),
            },
    {
        if !self.same_fixed(replacement) {
            return Err(invalid_input("configuration reload changes immutable settings"));
        }
        let ghost current = self.static_ssh_backends@;
        let ghost next = replacement.static_ssh_backends@;
        let mut i: usize = 0;
        while i < self.static_ssh_backends.len()
            invariant
                same_fixed_settings(*self, *replacement),
                current == self.static_ssh_backends@,
                next == replacement.static_ssh_backends@,
                i <= current.len(),
                forall|j: int|
                    0 <= j < i ==> match ssh_place(next, (#[trigger] current[j]).target.name@) {
                        Some(place) => next[place].same_as(current[j]),
                        None => true,
                    },
            decreases current.len() - i,
        {
            let backend = &self.static_ssh_backends[i];
            if let Some(place) = find_ssh(
                &replacement.static_ssh_backends,
                backend.target.name.as_str(),
            ) {
                if !replacement.static_ssh_backends[place].equals(backend) {
                    assert(!kept_backends_agree(current, next)) by {
                        assert(current[i as int] == *backend);
                    }
                    return Err(
                        invalid_input("configuration reload changes an existing static SSH backend"),
                    );
                }
            }
            i += 1;
        }
        Ok(
            StaticSshReloadChanges {
                added: missing(&replacement.static_ssh_backends, &self.static_ssh_backends),
                removed: missing(&self.static_ssh_backends, &replacement.static_ssh_backends),
            },
        )
    }

    /// All backends, in the order of their kinds.
    pub fn backend_targets(&self) -> (targets: Vec<&BackendTarget>)
        ensures
            targets@.len() == targets_of(*self).len(),
            forall|i: int|
                0 <= i < targets@.len() ==> *(#[trigger] targets@[i]) == targets_of(*self)[i],
    {
        let ghost expected = targets_of(*self);
        let ghost first: int = if self.local_backend is Some {
            1
        } else {
            0
        };
        let mut targets: Vec<&BackendTarget> = Vec::new();
        if let Some(backend) = &self.local_backend {
            targets.push(&backend.target);
        }
        let mut i: usize = 0;
        while i < self.static_ssh_backends.len()
            invariant
                expected == targets_of(*self),
                first == (if self.local_backend is Some {
                    1int
                } else {
                    0int
                }),
                i <= self.static_ssh_backends@.len(),
                targets@.len() == first + i,
                forall|j: int|
                    0 <= j < targets@.len() ==> *(#[trigger] targets@[j]) == expected[j],
            decreases self.static_ssh_backends@.len() - i,
        {
            assert(expected[first + i] == self.static_ssh_backends@[i as int].target);
            targets.push(&self.static_ssh_backends[i].target);
            i += 1;
        }
        let mut k: usize = 0;
        while k < self.nomad_backends.len()
            invariant
                expected == targets_of(*self),
                first == (if self.local_backend is Some {
                    1int
                } else {
                    0int
                }),
                k <= self.nomad_backends@.len(),
                targets@.len() == first + self.static_ssh_backends@.len() + k,
                forall|j: int|
                    0 <= j < targets@.len() ==> *(#[trigger] targets@[j]) == expected[j],
            decreases self.nomad_backends@.len() - k,
        {
            assert(expected[first + self.static_ssh_backends@.len() + k]
                == self.nomad_backends@[k as int].target);
            targets.push(&self.nomad_backends[k].target);
            k += 1;
        }
        targets
    }
}

/// No backend is counted as missing from another list exactly when that list has every name.
pub proof fn nothing_missing_means_contained(
    current: Seq<StaticSshBackendConfig>,
    replacement: Seq<StaticSshBackendConfig>,
)
    ensures
        count_missing(current, replacement) == 0 <==> forall|i: int|
            0 <= i < current.len() ==> ssh_place(
                replacement,
                (#[trigger] current[i]).target.name@,
            ) is Some,
    decreases current.len(),
{
    if current.len() > 0 {
        let earlier = current.drop_last();
        nothing_missing_means_contained(earlier, replacement);
        assert(forall|i: int| 0 <= i < earlier.len() ==> earlier[i] == current[i]);
        assert(current[current.len() - 1] == current.last());
        if forall|i: int|
            0 <= i < current.len() ==> ssh_place(
                replacement,
                (#[trigger] current[i]).target.name@,
            ) is Some {
            assert forall|i: int| 0 <= i < earlier.len() implies ssh_place(
                replacement,
                (#[trigger] earlier[i]).target.name@,
            ) is Some by {
                assert(ssh_place(replacement, current[i].target.name@) is Some);
            }
        }
        if count_missing(current, replacement) == 0 {
            assert forall|i: int| 0 <= i < current.len() implies ssh_place(
                replacement,
                (#[trigger] current[i]).target.name@,
            ) is Some by {
                if i < earlier.len() {
                    assert(ssh_place(replacement, earlier[i].target.name@) is Some);
                }
            }
        }
    }
}

/// A text is in a list.
pub open spec fn lists(texts: Seq<String>, wanted: Seq<char>) -> bool {
    exists|i: int| 0 <= i < texts.len() && (#[trigger] texts[i])@ == wanted
}

/// Texts come in their order, each once.
pub open spec fn are_sorted(texts: Seq<String>) -> bool {
    forall|i: int, j: int|
        0 <= i < j < texts.len() ==> text::precedes(
            (#[trigger] texts[i])@,
            (#[trigger] texts[j])@,
        )
}

/// Some backend for a system has a feature.
pub open spec fn has_feature(
    targets: Seq<BackendTarget>,
    system: Seq<char>,
    feature: Seq<char>,
) -> bool {
    exists|i: int|
        0 <= i < targets.len() && (#[trigger] targets[i]).system@ == system && lists(
            targets[i].features@,
            feature,
        )
}

/// Some backend builds for a system.
pub open spec fn has_system(targets: Seq<BackendTarget>, system: Seq<char>) -> bool {
    exists|i: int| 0 <= i < targets.len() && (#[trigger] targets[i]).system@ == system
}

fn add_text(texts: &mut Vec<String>, added: &str)
    requires
        are_sorted(old(texts)@),
    ensures
        are_sorted(final(texts)@),
        forall|wanted: Seq<char>|
            #[trigger] lists(final(texts)@, wanted) <==> lists(old(texts)@, wanted) || wanted
                == added@,
{
    let ghost before = texts@;
    let mut i: usize = 0;
    while i < texts.len() && text::before(texts[i].as_str(), added)
        invariant
            texts@ == before,
            i <= before.len(),
            forall|j: int| 0 <= j < i ==> text::precedes((#[trigger] before[j])@, added@),
        decreases before.len() - i,
    {
        i += 1;
    }
    if i < texts.len() && text::same_text(texts[i].as_str(), added) {
        assert(lists(before, added@));
        return;
    }
    texts.insert(i, added.to_owned());
    proof {
        let after = texts@;
        assert forall|j: int| i <= j < before.len() implies text::precedes(
            added@,
            (#[trigger] before[j])@,
        ) by {
            text::order_is_strict(added@, before[i as int]@);
            if j > i {
                text::order_is_transitive(added@, before[i as int]@, before[j]@);
            }
        }
        assert forall|a: int, b: int| 0 <= a < b < after.len() implies text::precedes(
            (#[trigger] after[a])@,
            (#[trigger] after[b])@,
        ) by {
            let first = if a < i { a } else { a - 1 };
            let second = if b < i { b } else { b - 1 };
            if a != i {
                assert(after[a] == before[first]);
            }
            if b != i {
                assert(after[b] == before[second]);
            }
        }
        assert forall|wanted: Seq<char>| #[trigger] lists(after, wanted) <==> lists(before, wanted)
            || wanted == added@ by {
            if lists(before, wanted) {
                let j = choose|j: int| 0 <= j < before.len() && (#[trigger] before[j])@ == wanted;
                assert(after[if j < i { j } else { j + 1 }]@ == wanted);
            }
            if wanted == added@ {
                assert(after[i as int]@ == wanted);
            }
            if lists(after, wanted) && wanted != added@ {
                let j = choose|j: int| 0 <= j < after.len() && (#[trigger] after[j])@ == wanted;
                assert(before[if j < i { j } else { j - 1 }]@ == wanted);
            }
        }
    }
}

fn collect_features(targets: &Vec<&BackendTarget>, system: &str) -> (features: Vec<String>)
    ensures
        are_sorted(features@),
        forall|feature: Seq<char>|
            #[trigger] lists(features@, feature) <==> has_feature(
                targets@.map_values(|target: &BackendTarget| *target),
                system@,
                feature,
            ),
{
    let ghost all = targets@.map_values(|target: &BackendTarget| *target);
    let mut features: Vec<String> = Vec::new();
    let mut i: usize = 0;
    while i < targets.len()
        invariant
            all == targets@.map_values(|target: &BackendTarget| *target),
            i <= all.len(),
            are_sorted(features@),
            forall|feature: Seq<char>|
                #[trigger] lists(features@, feature) <==> has_feature(
                    all.take(i as int),
                    system@,
                    feature,
                ),
        decreases all.len() - i,
    {
        let ghost before = features@;
        let ghost own = all[i as int].features@;
        if text::same_text(targets[i].system.as_str(), system) {
            let mut k: usize = 0;
            while k < targets[i].features.len()
                invariant
                    i < targets@.len(),
                    own == targets@[i as int].features@,
                    k <= own.len(),
                    are_sorted(features@),
                    forall|feature: Seq<char>|
                        #[trigger] lists(features@, feature) <==> lists(before, feature) || lists(
                            own.take(k as int),
                            feature,
                        ),
                decreases own.len() - k,
            {
                add_text(&mut features, targets[i].features[k].as_str());
                assert forall|feature: Seq<char>| #[trigger] lists(features@, feature) <==> lists(
                    before,
                    feature,
                ) || lists(own.take(k + 1), feature) by {
                    let shorter = own.take(k as int);
                    let longer = own.take(k + 1);
                    if lists(shorter, feature) {
                        let j = choose|j: int|
                            0 <= j < shorter.len() && (#[trigger] shorter[j])@ == feature;
                        assert(longer[j]@ == feature);
                    }
                    if lists(longer, feature) {
                        let j = choose|j: int|
                            0 <= j < longer.len() && (#[trigger] longer[j])@ == feature;
                        if j < k {
                            assert(shorter[j]@ == feature);
                        }
                    }
                    if feature == own[k as int]@ {
                        assert(longer[k as int]@ == feature);
                    }
                }
                k += 1;
            }
            assert(own.take(own.len() as int) =~= own);
        }
        assert forall|feature: Seq<char>| #[trigger] lists(features@, feature) <==> has_feature(
            all.take(i + 1),
            system@,
            feature,
        ) by {
            let shorter = all.take(i as int);
            let longer = all.take(i + 1);
            assert(longer[i as int] == all[i as int]);
            if has_feature(shorter, system@, feature) {
                let j = choose|j: int|
                    0 <= j < shorter.len() && (#[trigger] shorter[j]).system@ == system@ && lists(
                        shorter[j].features@,
                        feature,
                    );
                assert(longer[j].system@ == system@);
            }
            if has_feature(longer, system@, feature) {
                let j = choose|j: int|
                    0 <= j < longer.len() && (#[trigger] longer[j]).system@ == system@ && lists(
                        longer[j].features@,
                        feature,
                    );
                if j < i {
                    assert(shorter[j].system@ == system@);
                }
            }
            assert(all[i as int].system@ == targets@[i as int].system@);
        }
        i += 1;
    }
    assert(all.take(all.len() as int) =~= all);
    features
}

/// A system is among those listed.
pub open spec fn names_system(systems: Seq<(String, Vec<String>)>, system: Seq<char>) -> bool {
    exists|i: int| 0 <= i < systems.len() && (#[trigger] systems[i]).0@ == system
}

impl ServiceConfig {
    /// The systems that backends build for, in their order and each once, and the features of all
    /// its backends, in their order too.
    pub fn system_features(&self) -> (systems: Vec<(String, Vec<String>)>)
        ensures
            model::sorted_keys(systems@),
            forall|i: int|
                0 <= i < systems@.len() ==> has_system(targets_of(*self), (#[trigger] systems@[i]).0@)
                    && are_sorted(systems@[i].1@),
            forall|i: int, feature: Seq<char>|
                0 <= i < systems@.len() ==> (#[trigger] lists(systems@[i].1@, feature)
                    <==> has_feature(targets_of(*self), systems@[i].0@, feature)),
            forall|k: int|
                0 <= k < targets_of(*self).len() ==> names_system(
                    systems@,
                    (#[trigger] targets_of(*self)[k]).system@,
                ),
    {
        let targets = self.backend_targets();
        let ghost all = targets_of(*self);
        assert(targets@.map_values(|target: &BackendTarget| *target) =~= all);
        let mut names: Vec<String> = Vec::new();
        let mut i: usize = 0;
        while i < targets.len()
            invariant
                targets@.len() == all.len(),
                forall|j: int| 0 <= j < all.len() ==> *(#[trigger] targets@[j]) == all[j],
                i <= all.len(),
                are_sorted(names@),
                forall|system: Seq<char>|
                    #[trigger] lists(names@, system) <==> has_system(all.take(i as int), system),
            decreases all.len() - i,
        {
            add_text(&mut names, targets[i].system.as_str());
            assert forall|system: Seq<char>| #[trigger] lists(names@, system) <==> has_system(
                all.take(i + 1),
                system,
            ) by {
                let shorter = all.take(i as int);
                let longer = all.take(i + 1);
                assert(longer[i as int] == all[i as int]);
                if has_system(shorter, system) {
                    let j = choose|j: int|
                        0 <= j < shorter.len() && (#[trigger] shorter[j]).system@ == system;
                    assert(longer[j].system@ == system);
                }
                if has_system(longer, system) {
                    let j = choose|j: int|
                        0 <= j < longer.len() && (#[trigger] longer[j]).system@ == system;
                    if j < i {
                        assert(shorter[j].system@ == system);
                    }
                }
                assert(all[i as int].system@ == targets@[i as int].system@);
            }
            i += 1;
        }
        assert(all.take(all.len() as int) =~= all);
        let mut systems: Vec<(String, Vec<String>)> = Vec::new();
        let mut k: usize = 0;
        while k < names.len()
            invariant
                targets@.map_values(|target: &BackendTarget| *target) == all,
                k <= names@.len(),
                systems@.len() == k,
                forall|a: int| 0 <= a < k ==> (#[trigger] systems@[a]).0@ == names@[a]@,
                forall|a: int| 0 <= a < k ==> are_sorted((#[trigger] systems@[a]).1@),
                forall|a: int, feature: Seq<char>|
                    0 <= a < systems@.len() ==> (#[trigger] lists(systems@[a].1@, feature)
                        <==> has_feature(all, systems@[a].0@, feature)),
            decreases names@.len() - k,
        {
            let features = collect_features(&targets, names[k].as_str());
            systems.push((names[k].clone(), features));
            k += 1;
        }
        proof {
            assert forall|a: int, b: int| 0 <= a < b < systems@.len() implies text::precedes(
                (#[trigger] systems@[a]).0@,
                (#[trigger] systems@[b]).0@,
            ) by {
                assert(systems@[a].0@ == names@[a]@);
                assert(systems@[b].0@ == names@[b]@);
            }
            assert forall|a: int| 0 <= a < systems@.len() implies has_system(
                all,
                (#[trigger] systems@[a]).0@,
            ) by {
                assert(names@[a]@ == systems@[a].0@);
                assert(lists(names@, systems@[a].0@));
            }
            assert forall|m: int| 0 <= m < all.len() implies names_system(
                systems@,
                (#[trigger] all[m]).system@,
            ) by {
                assert(has_system(all, all[m].system@));
                assert(lists(names@, all[m].system@));
                let a = choose|a: int|
                    0 <= a < names@.len() && (#[trigger] names@[a])@ == all[m].system@;
                assert(systems@[a].0@ == all[m].system@);
            }
        }
        systems
    }
}

} // verus!
