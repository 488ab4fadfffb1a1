//! Rules that settings have to meet before the service uses them.

use crate::crypto;
use crate::fault::{self, invalid_input, Fault};
use crate::service::config::model::{
    self, BackendKind, BackendTarget, CredentialMapping, IpAddress, JsonValue, LocalBackendConfig, NomadBackendConfig,
    NomadCallbackConfig, NomadPrestartConfig, NomadResources, NomadStoreConfig,
    NomadTransferAuthentication, NomadTransferLimits, SchedulingLimits, SocketAddress,
    StaticSshBackendConfig, MAXIMUM_SCHEDULING_BUILDS,
};
use crate::text;
use crate::time::Span;
use vstd::prelude::*;

verus! {

pub const DEFAULT_NOMAD_CALLBACK_MAXIMUM_CONNECTIONS: usize = 64;

pub const DEFAULT_NOMAD_CALLBACK_MAXIMUM_HEADER_BYTES: usize = 16_384;

pub const DEFAULT_NOMAD_CALLBACK_MAXIMUM_BODY_BYTES: usize = 65_536;

pub const DEFAULT_NOMAD_CALLBACK_AUTHENTICATION_REQUEST_TIMEOUT_SECONDS: u64 = 10;

pub const DEFAULT_NOMAD_CALLBACK_SHUTDOWN_DRAIN_TIMEOUT_SECONDS: u64 = 30;

pub const DEFAULT_NOMAD_CALLBACK_MAXIMUM_JWKS_BYTES: usize = 1_048_576;

pub const DEFAULT_NOMAD_CALLBACK_MAXIMUM_RETAINED_NONCES: usize = 65_536;

pub const MAXIMUM_NOMAD_CALLBACK_CONNECTIONS: usize = 65_536;

pub const MAXIMUM_NOMAD_CALLBACK_HEADER_BYTES: usize = 1_048_576;

pub const MAXIMUM_NOMAD_CALLBACK_BODY_BYTES: usize = 67_108_864;

pub const MAXIMUM_NOMAD_CALLBACK_RETAINED_NONCES: usize = 67_108_864;

pub const MAXIMUM_CREDENTIAL_MAPPINGS: usize = 4_096;

pub const MAXIMUM_CREDENTIAL_ID_BYTES: usize = 1_024;

pub const MAXIMUM_SUBJECT_BYTES: usize = 256;

pub const MAXIMUM_STATIC_SSH_BACKENDS: usize = 256;

pub const MAXIMUM_NOMAD_BACKENDS: usize = 256;

pub const MAXIMUM_BACKEND_CONCURRENT_BUILDS: usize = 65_536;

pub const MAXIMUM_NOMAD_ENDPOINT_BYTES: usize = 2_048;

pub const MAXIMUM_NOMAD_DRIVER_CONFIG_BYTES: usize = 16_384;

pub const MAXIMUM_NOMAD_DRIVER_CONFIG_ENTRIES: usize = 256;

pub const MAXIMUM_NOMAD_DRIVER_CONFIG_DEPTH: usize = 4;

pub const MAXIMUM_NOMAD_RESOURCE: u64 = 16_777_216;

pub const MAXIMUM_NOMAD_POLL_INTERVAL_SECONDS: u64 = 300;

pub const MAXIMUM_NOMAD_RUNTIME_LIMIT_SECONDS: u64 = 604_800;

pub const MAXIMUM_NOMAD_TRANSFER_PATHS: usize = 1_000_000;

pub const MAXIMUM_NOMAD_TRANSFER_BYTES: u64 = 0x7fff_ffff_ffff_ffff;

pub const MAXIMUM_NOMAD_TRANSFER_MEMORY_BYTES: usize = 67_108_864;

pub const MAXIMUM_NOMAD_TRANSFER_TIMEOUT_SECONDS: u64 = 86_400;

pub const MAXIMUM_NOMAD_AUTHENTICATION_SECONDS: u64 = 3_600;

pub const MAXIMUM_NOMAD_NONCE_RETENTION_SECONDS: u64 = 86_400;

pub const MAXIMUM_NOMAD_STORE_URI_BYTES: usize = 2_048;

pub const MAXIMUM_SSH_DESTINATION_BYTES: usize = 512;

pub const DEFAULT_STATIC_SSH_READY_CHECK_INTERVAL_SECONDS: u64 = 300;

pub const DEFAULT_STATIC_SSH_UNAVAILABLE_CHECK_INTERVAL_SECONDS: u64 = 60;

pub const DEFAULT_STATIC_SSH_CHECK_TIMEOUT_SECONDS: u64 = 10;

/// A file or an address that was looked at outside, and what was wrong with it.
#[derive(Clone, Debug)]
pub struct Checked {
    pub value: String,
    pub refusal: Option<Fault>,
}

fn accept(checked: Checked) -> (value: Result<String, Fault>)
    ensures
        match checked.refusal {
            Some(refusal) => value == Err::<String, Fault>(refusal),
            None => value == Ok::<String, Fault>(checked.value),
        },
{
    match checked.refusal {
        Some(refusal) => Err(refusal),
        None => Ok(checked.value),
    }
}

/// What was wrong with a file, if one is configured.
pub open spec fn option_refusal(checked: Option<Checked>) -> Option<Fault> {
    match checked {
        Some(file) => file.refusal,
        None => None,
    }
}

/// The path of a file, if one is configured.
pub open spec fn option_value(checked: Option<Checked>) -> Option<String> {
    match checked {
        Some(file) => Some(file.value),
        None => None,
    }
}

fn accept_option(checked: Option<Checked>) -> (value: Result<Option<String>, Fault>)
    ensures
        match option_refusal(checked) {
            Some(refusal) => value == Err::<Option<String>, Fault>(refusal),
            None => value == Ok::<Option<String>, Fault>(option_value(checked)),
        },
{
    match checked {
        Some(file) => match accept(file) {
            Ok(path) => Ok(Some(path)),
            Err(refusal) => Err(refusal),
        },
        None => Ok(None),
    }
}

/// A name: not empty, bounded, and without control characters.
pub open spec fn is_subject(value: Seq<char>) -> bool {
    &&& value.len() > 0
    &&& text::byte_length(value) <= MAXIMUM_SUBJECT_BYTES
    &&& !text::has_control(value)
}

/// Lets a name pass, or refuses it with a message.
pub fn validate_subject(value: String, message: &'static str) -> (subject: Result<String, Fault>)
    ensures
        is_subject(value@) ==> subject == Ok::<String, Fault>(value),
        !is_subject(value@) ==> subject == Err::<String, Fault>(fault::input_fault(message)),
{
    if value.as_str().is_empty() || text::length_in_bytes(value.as_str()) > MAXIMUM_SUBJECT_BYTES
        || text::contains_control(value.as_str()) {
        return Err(invalid_input(message));
    }
    Ok(value)
}

/// The text has white space or a control character in it.
pub open spec fn has_space_or_control(value: Seq<char>) -> bool {
    exists|i: int|
        0 <= i < value.len() && (text::is_space(#[trigger] value[i]) || text::is_control(value[i]))
}

fn contains_space_or_control(value: &str) -> (found: bool)
    ensures
        found == has_space_or_control(value@),
{
    let characters = text::characters(value);
    let mut i: usize = 0;
    while i < characters.len()
        invariant
            characters@ == value@,
            i <= characters@.len(),
            forall|j: int|
                0 <= j < i ==> !text::is_space(#[trigger] value@[j]) && !text::is_control(value@[j]),
        decreases characters@.len() - i,
    {
        if text::space(characters[i]) || text::control(characters[i]) {
            assert(text::is_space(value@[i as int]) || text::is_control(value@[i as int]));
            return true;
        }
        i += 1;
    }
    false
}

/// A URL with one of two schemes: bounded, with something after the scheme, and without white
/// space or control characters.
pub open spec fn is_endpoint(value: Seq<char>, first: Seq<char>, second: Seq<char>) -> bool {
    &&& text::byte_length(value) <= MAXIMUM_NOMAD_ENDPOINT_BYTES
    &&& !has_space_or_control(value)
    &&& (first.is_prefix_of(value) && value.len() > first.len()) || (second.is_prefix_of(value)
        && value.len() > second.len())
}

fn valid_endpoint(value: &str, first: &str, second: &str) -> (valid: bool)
    ensures
        valid == is_endpoint(value@, first@, second@),
{
    text::length_in_bytes(value) <= MAXIMUM_NOMAD_ENDPOINT_BYTES && !contains_space_or_control(
        value,
    ) && ((text::starts_with(value, first) && value.unicode_len() > first.unicode_len()) || (
    text::starts_with(value, second) && value.unicode_len() > second.unicode_len()))
}

pub open spec fn is_nomad_endpoint(value: Seq<char>) -> bool {
    is_endpoint(value, "http://"@, "https://"@)
}

pub open spec fn is_nomad_transfer_endpoint(value: Seq<char>) -> bool {
    is_endpoint(value, "ws://"@, "wss://"@)
}

pub fn valid_nomad_endpoint(value: &str) -> (valid: bool)
    ensures
        valid == is_nomad_endpoint(value@),
{
    valid_endpoint(value, "http://", "https://")
}

pub fn valid_nomad_transfer_endpoint(value: &str) -> (valid: bool)
    ensures
        valid == is_nomad_transfer_endpoint(value@),
{
    valid_endpoint(value, "ws://", "wss://")
}

/// A host that `ssh` can be sent to: bounded, no option, and without white space or control
/// characters.
pub open spec fn is_ssh_destination(value: Seq<char>) -> bool {
    &&& value.len() > 0
    &&& text::byte_length(value) <= MAXIMUM_SSH_DESTINATION_BYTES
    &&& value[0] != '-'
    &&& !has_space_or_control(value)
}

fn valid_ssh_destination(value: &str) -> (valid: bool)
    ensures
        valid == is_ssh_destination(value@),
{
    !value.is_empty() && text::length_in_bytes(value) <= MAXIMUM_SSH_DESTINATION_BYTES
        && value.get_char(0) != '-' && !contains_space_or_control(value)
}

pub open spec fn is_capacity(value: usize) -> bool {
    0 < value <= MAXIMUM_BACKEND_CONCURRENT_BUILDS
}

fn validate_backend_capacity(value: usize) -> (checked: Result<(), Fault>)
    ensures
        is_capacity(value) ==> checked is Ok,
        !is_capacity(value) ==> checked == Err::<(), Fault>(
            fault::input_fault("backend concurrent build limit is invalid"),
        ),
{
    if value == 0 || value > MAXIMUM_BACKEND_CONCURRENT_BUILDS {
        return Err(invalid_input("backend concurrent build limit is invalid"));
    }
    Ok(())
}

/// A backend can be named, and says for which system it builds.
pub open spec fn is_target(name: Seq<char>, system: Seq<char>, features: Seq<String>) -> bool {
    &&& is_subject(name)
    &&& is_subject(system)
    &&& forall|i: int| 0 <= i < features.len() ==> is_subject((#[trigger] features[i])@)
}

impl BackendTarget {
    pub fn new(name: String, kind: BackendKind, system: String, features: Vec<String>) -> (target:
        Result<Self, Fault>)
        ensures
            match target {
                Ok(made) => is_target(name@, system@, features@) && made == (BackendTarget {
                    name,
                    kind,
                    system,
                    features,
                }),
                Err(refusal) => !is_target(name@, system@, features@) && refusal
                    == fault::input_fault("backend target is invalid"),
            },
    {
        let name = validate_subject(name, "backend target is invalid")?;
        let system = validate_subject(system, "backend target is invalid")?;
        let mut i: usize = 0;
        while i < features.len()
            invariant
                i <= features@.len(),
                forall|j: int| 0 <= j < i ==> is_subject((#[trigger] features@[j])@),
            decreases features@.len() - i,
        {
            let feature = features[i].clone();
            match validate_subject(feature, "backend target is invalid") {
                Ok(_) => {},
                Err(refusal) => {
                    assert(!is_subject(features@[i as int]@));
                    return Err(refusal);
                },
            }
            i += 1;
        }
        Ok(BackendTarget { name, kind, system, features })
    }
}

/// What is configured of the callback service.
#[derive(Debug)]
pub struct RawNomadCallbackConfig {
    /// The address to bind, or why what is configured is none.
    pub bind: Result<Option<SocketAddress>, Fault>,
    pub public_url: Option<String>,
    pub maximum_connections: Option<usize>,
    pub maximum_header_bytes: Option<usize>,
    pub maximum_body_bytes: Option<usize>,
    pub authentication_request_timeout_seconds: Option<u64>,
    pub shutdown_drain_timeout_seconds: Option<u64>,
    pub maximum_jwks_bytes: Option<usize>,
    pub maximum_retained_nonces: Option<usize>,
}

pub open spec fn or_size(value: Option<usize>, default: usize) -> usize {
    match value {
        Some(given) => given,
        None => default,
    }
}

pub open spec fn or_number(value: Option<u64>, default: u64) -> u64 {
    match value {
        Some(given) => given,
        None => default,
    }
}

/// The address that is bound: port 7443 of all addresses unless another is configured.
pub open spec fn configured_address(bind: Result<Option<SocketAddress>, Fault>) -> SocketAddress {
    match bind {
        Ok(Some(address)) => address,
        _ => SocketAddress { address: IpAddress::V4(0), port: 7443 },
    }
}

/// The URL at which the callback service is reached unless another is configured.
pub open spec fn default_public_url() -> Seq<char> {
    "ws://127.0.0.1:7443/callback"@
}

pub open spec fn configured_url(raw: RawNomadCallbackConfig) -> Seq<char> {
    match raw.public_url {
        Some(url) => url@,
        None => default_public_url(),
    }
}

pub open spec fn callback_limits_valid(raw: RawNomadCallbackConfig) -> bool {
    &&& 0 < or_size(raw.maximum_connections, DEFAULT_NOMAD_CALLBACK_MAXIMUM_CONNECTIONS)
        <= MAXIMUM_NOMAD_CALLBACK_CONNECTIONS
    &&& 0 < or_size(raw.maximum_header_bytes, DEFAULT_NOMAD_CALLBACK_MAXIMUM_HEADER_BYTES)
        <= MAXIMUM_NOMAD_CALLBACK_HEADER_BYTES
    &&& 0 < or_size(raw.maximum_body_bytes, DEFAULT_NOMAD_CALLBACK_MAXIMUM_BODY_BYTES)
        <= MAXIMUM_NOMAD_CALLBACK_BODY_BYTES
    &&& 0 < or_number(
        raw.authentication_request_timeout_seconds,
        DEFAULT_NOMAD_CALLBACK_AUTHENTICATION_REQUEST_TIMEOUT_SECONDS,
    ) <= MAXIMUM_NOMAD_TRANSFER_TIMEOUT_SECONDS
    &&& 0 < or_number(
        raw.shutdown_drain_timeout_seconds,
        DEFAULT_NOMAD_CALLBACK_SHUTDOWN_DRAIN_TIMEOUT_SECONDS,
    ) <= MAXIMUM_NOMAD_TRANSFER_TIMEOUT_SECONDS
    &&& 0 < or_size(raw.maximum_jwks_bytes, DEFAULT_NOMAD_CALLBACK_MAXIMUM_JWKS_BYTES)
        <= MAXIMUM_NOMAD_CALLBACK_BODY_BYTES
    &&& 0 < or_size(raw.maximum_retained_nonces, DEFAULT_NOMAD_CALLBACK_MAXIMUM_RETAINED_NONCES)
        <= MAXIMUM_NOMAD_CALLBACK_RETAINED_NONCES
}

pub open spec fn callback_fault(raw: RawNomadCallbackConfig) -> Option<Fault> {
    if raw.bind is Err {
        Some(raw.bind->Err_0)
    } else if !is_nomad_transfer_endpoint(configured_url(raw)) {
        Some(fault::input_fault("Nomad callback public URL is invalid"))
    } else if !callback_limits_valid(raw) {
        Some(fault::input_fault("Nomad callback service limits are invalid"))
    } else {
        None
    }
}

/// The settings are those configured, and the defaults of the others.
pub open spec fn callback_matches(made: NomadCallbackConfig, raw: RawNomadCallbackConfig) -> bool {
    &&& made.bind == configured_address(raw.bind)
    &&& made.public_url@ == configured_url(raw)
    &&& made.maximum_connections == or_size(
        raw.maximum_connections,
        DEFAULT_NOMAD_CALLBACK_MAXIMUM_CONNECTIONS,
    )
    &&& made.maximum_header_bytes == or_size(
        raw.maximum_header_bytes,
        DEFAULT_NOMAD_CALLBACK_MAXIMUM_HEADER_BYTES,
    )
    &&& made.maximum_body_bytes == or_size(
        raw.maximum_body_bytes,
        DEFAULT_NOMAD_CALLBACK_MAXIMUM_BODY_BYTES,
    )
    &&& made.authentication_request_timeout == Span::spec_seconds(
        or_number(
            raw.authentication_request_timeout_seconds,
            DEFAULT_NOMAD_CALLBACK_AUTHENTICATION_REQUEST_TIMEOUT_SECONDS,
        ),
    )
    &&& made.shutdown_drain_timeout == Span::spec_seconds(
        or_number(
            raw.shutdown_drain_timeout_seconds,
            DEFAULT_NOMAD_CALLBACK_SHUTDOWN_DRAIN_TIMEOUT_SECONDS,
        ),
    )
    &&& made.maximum_jwks_bytes == or_size(
        raw.maximum_jwks_bytes,
        DEFAULT_NOMAD_CALLBACK_MAXIMUM_JWKS_BYTES,
    )
    &&& made.maximum_retained_nonces == or_size(
        raw.maximum_retained_nonces,
        DEFAULT_NOMAD_CALLBACK_MAXIMUM_RETAINED_NONCES,
    )
}

pub fn validate_nomad_callback(raw: RawNomadCallbackConfig) -> (made: Result<
    NomadCallbackConfig,
    Fault,
>)
    ensures
        match made {
            Ok(config) => callback_fault(raw) is None && callback_matches(config, raw),
            Err(refusal) => callback_fault(raw) == Some(refusal),
        },
{
    let bind = match raw.bind {
        Err(refusal) => {
            return Err(refusal);
        },
        Ok(Some(address)) => address,
        Ok(None) => SocketAddress { address: IpAddress::V4(0), port: 7443 },
    };
    let public_url = match raw.public_url {
        Some(url) => url,
        None => "ws://127.0.0.1:7443/callback".to_owned(),
    };
    if !valid_nomad_transfer_endpoint(public_url.as_str()) {
        return Err(invalid_input("Nomad callback public URL is invalid"));
    }
    let maximum_connections: usize = raw.maximum_connections.unwrap_or(
        DEFAULT_NOMAD_CALLBACK_MAXIMUM_CONNECTIONS,
    );
    let maximum_header_bytes: usize = raw.maximum_header_bytes.unwrap_or(
        DEFAULT_NOMAD_CALLBACK_MAXIMUM_HEADER_BYTES,
    );
    let maximum_body_bytes: usize = raw.maximum_body_bytes.unwrap_or(
        DEFAULT_NOMAD_CALLBACK_MAXIMUM_BODY_BYTES,
    );
    let request_seconds: u64 = raw.authentication_request_timeout_seconds.unwrap_or(
        DEFAULT_NOMAD_CALLBACK_AUTHENTICATION_REQUEST_TIMEOUT_SECONDS,
    );
    let drain_seconds: u64 = raw.shutdown_drain_timeout_seconds.unwrap_or(
        DEFAULT_NOMAD_CALLBACK_SHUTDOWN_DRAIN_TIMEOUT_SECONDS,
    );
    let maximum_jwks_bytes: usize = raw.maximum_jwks_bytes.unwrap_or(
        DEFAULT_NOMAD_CALLBACK_MAXIMUM_JWKS_BYTES,
    );
    let maximum_retained_nonces: usize = raw.maximum_retained_nonces.unwrap_or(
        DEFAULT_NOMAD_CALLBACK_MAXIMUM_RETAINED_NONCES,
    );
    if maximum_connections == 0 || maximum_connections > MAXIMUM_NOMAD_CALLBACK_CONNECTIONS
        || maximum_header_bytes == 0 || maximum_header_bytes > MAXIMUM_NOMAD_CALLBACK_HEADER_BYTES
        || maximum_body_bytes == 0 || maximum_body_bytes > MAXIMUM_NOMAD_CALLBACK_BODY_BYTES
        || request_seconds == 0 || request_seconds > MAXIMUM_NOMAD_TRANSFER_TIMEOUT_SECONDS
        || drain_seconds == 0 || drain_seconds > MAXIMUM_NOMAD_TRANSFER_TIMEOUT_SECONDS
        || maximum_jwks_bytes == 0 || maximum_jwks_bytes > MAXIMUM_NOMAD_CALLBACK_BODY_BYTES
        || maximum_retained_nonces == 0 || maximum_retained_nonces
        > MAXIMUM_NOMAD_CALLBACK_RETAINED_NONCES {
        return Err(invalid_input("Nomad callback service limits are invalid"));
    }
    Ok(
        NomadCallbackConfig {
            bind,
            public_url,
            maximum_connections,
            maximum_header_bytes,
            maximum_body_bytes,
            authentication_request_timeout: Span::from_seconds(request_seconds),
            shutdown_drain_timeout: Span::from_seconds(drain_seconds),
            maximum_jwks_bytes,
            maximum_retained_nonces,
        },
    )
}

/// What is configured of a credential.
#[derive(Clone, Debug)]
pub struct RawCredentialMapping {
    pub audit_subject: Option<String>,
    pub quota_subject: Option<String>,
}

/// The credential is one that OpenSSH reports: a public key or a certificate.
pub open spec fn is_credential_id(credential_id: Seq<char>) -> bool {
    &&& text::byte_length(credential_id) <= MAXIMUM_CREDENTIAL_ID_BYTES
    &&& "ssh-pubkey:"@.is_prefix_of(credential_id) || "ssh-cert:"@.is_prefix_of(credential_id)
    &&& credential_id != "ssh-pubkey:"@
    &&& credential_id != "ssh-cert:"@
}

pub open spec fn option_is_subject(value: Option<String>) -> bool {
    match value {
        Some(given) => is_subject(given@),
        None => true,
    }
}

pub open spec fn mapping_fault(credential_id: Seq<char>, raw: RawCredentialMapping) -> Option<
    Fault,
> {
    if !is_credential_id(credential_id) {
        Some(fault::input_fault("credential mapping ID is invalid"))
    } else if !option_is_subject(raw.audit_subject) {
        Some(fault::input_fault("audit subject is invalid"))
    } else if !option_is_subject(raw.quota_subject) {
        Some(fault::input_fault("quota subject is invalid"))
    } else if raw.audit_subject is None && raw.quota_subject is None {
        Some(fault::input_fault("credential mapping is empty"))
    } else {
        None
    }
}

/// The fault of the first mapping that has one.
pub open spec fn first_mapping_fault(raw: Seq<(String, RawCredentialMapping)>) -> Option<Fault>
    decreases raw.len(),
{
    if raw.len() == 0 {
        None
    } else {
        match first_mapping_fault(raw.drop_last()) {
            Some(refusal) => Some(refusal),
            None => mapping_fault(raw.last().0@, raw.last().1),
        }
    }
}

pub open spec fn mappings_fault(raw: Seq<(String, RawCredentialMapping)>) -> Option<Fault> {
    if raw.len() > MAXIMUM_CREDENTIAL_MAPPINGS {
        Some(fault::input_fault("credential mapping count exceeds limit"))
    } else {
        first_mapping_fault(raw)
    }
}

proof fn mapping_fault_stays(raw: Seq<(String, RawCredentialMapping)>, count: int)
    requires
        0 <= count <= raw.len(),
        first_mapping_fault(raw.take(count)) is Some,
    ensures
        first_mapping_fault(raw) == first_mapping_fault(raw.take(count)),
    decreases raw.len(),
{
    if count == raw.len() {
        assert(raw.take(count) =~= raw);
    } else {
        assert(raw.drop_last().take(count) =~= raw.take(count));
        mapping_fault_stays(raw.drop_last(), count);
    }
}

fn validate_subject_option(value: Option<String>, message: &'static str) -> (subject: Result<
    Option<String>,
    Fault,
>)
    ensures
        option_is_subject(value) ==> subject == Ok::<Option<String>, Fault>(value),
        !option_is_subject(value) ==> subject == Err::<Option<String>, Fault>(
            fault::input_fault(message),
        ),
{
    match value {
        Some(given) => match validate_subject(given, message) {
            Ok(subject) => Ok(Some(subject)),
            Err(refusal) => Err(refusal),
        },
        None => Ok(None),
    }
}

/// Checks the credentials one by one; each keeps its subjects.
pub fn validate_mappings(raw: Vec<(String, RawCredentialMapping)>) -> (made: Result<
    Vec<(String, CredentialMapping)>,
    Fault,
>)
    requires
        model::sorted_keys(raw@),
    ensures
        match made {
            Ok(mappings) => {
                &&& mappings_fault(raw@) is None
                &&& model::sorted_keys(mappings@)
                &&& mappings@.len() == raw@.len()
                &&& forall|i: int|
                    0 <= i < raw@.len() ==> (#[trigger] mappings@[i]).0 == raw@[i].0
                        && mappings@[i].1.audit_subject == raw@[i].1.audit_subject
                        && mappings@[i].1.quota_subject == raw@[i].1.quota_subject
            },
            Err(refusal) => mappings_fault(raw@) == Some(refusal),
        },
{
    if raw.len() > MAXIMUM_CREDENTIAL_MAPPINGS {
        return Err(invalid_input("credential mapping count exceeds limit"));
    }
    let ghost whole = raw@;
    let mut mappings: Vec<(String, CredentialMapping)> = Vec::new();
    assert(whole.take(0) =~= Seq::<(String, RawCredentialMapping)>::empty());
    for entry in iter: raw
        invariant
            iter.seq() == whole,
            whole.len() <= MAXIMUM_CREDENTIAL_MAPPINGS,
            mappings@.len() == iter.index(),
            first_mapping_fault(whole.take(iter.index())) is None,
            forall|i: int|
                0 <= i < iter.index() ==> (#[trigger] mappings@[i]).0 == whole[i].0
                    && mappings@[i].1.audit_subject == whole[i].1.audit_subject
                    && mappings@[i].1.quota_subject == whole[i].1.quota_subject,
    {
        let (credential_id, mapping) = entry;
        proof {
            let i = iter.index();
            assert(whole.take(i + 1).drop_last() =~= whole.take(i));
            if mapping_fault(whole[i].0@, whole[i].1) is Some {
                mapping_fault_stays(whole, i + 1);
            }
        }
        let id = credential_id.as_str();
        if id.is_empty() || text::length_in_bytes(id) > MAXIMUM_CREDENTIAL_ID_BYTES || !(
        text::starts_with(id, "ssh-pubkey:") || text::starts_with(id, "ssh-cert:")) {
            proof {
                reveal_strlit("ssh-pubkey:");
                reveal_strlit("ssh-cert:");
            }
            return Err(invalid_input("credential mapping ID is invalid"));
        }
        if text::same_text(id, "ssh-pubkey:") || text::same_text(id, "ssh-cert:") {
            return Err(invalid_input("credential mapping ID is invalid"));
        }
        let audit_subject = validate_subject_option(
            mapping.audit_subject,
            "audit subject is invalid",
        )?;
        let quota_subject = validate_subject_option(
            mapping.quota_subject,
            "quota subject is invalid",
        )?;
        if audit_subject.is_none() && quota_subject.is_none() {
            return Err(invalid_input("credential mapping is empty"));
        }
        mappings.push((credential_id, CredentialMapping { audit_subject, quota_subject }));
    }
    assert(whole.take(whole.len() as int) =~= whole);
    Ok(mappings)
}

/// What is configured of the builds that a subject may have.
#[derive(Clone, Copy, Debug, PartialEq, Eq, Structural)]
pub struct RawSchedulingLimits {
    pub maximum_queued_builds: usize,
    pub maximum_active_builds: usize,
}

pub open spec fn scheduling_valid(raw: RawSchedulingLimits) -> bool {
    &&& 0 < raw.maximum_queued_builds <= MAXIMUM_SCHEDULING_BUILDS
    &&& 0 < raw.maximum_active_builds <= MAXIMUM_SCHEDULING_BUILDS
}

pub fn validate_scheduling_limits(raw: RawSchedulingLimits) -> (limits: Result<
    SchedulingLimits,
    Fault,
>)
    ensures
        match limits {
            Ok(made) => scheduling_valid(raw) && made.queued() == raw.maximum_queued_builds
                && made.active() == raw.maximum_active_builds,
            Err(refusal) => !scheduling_valid(raw) && refusal == fault::input_fault(
                "scheduling limits are invalid",
            ),
        },
{
    SchedulingLimits::new(raw.maximum_queued_builds, raw.maximum_active_builds)
}

/// What is configured of the local backend.
#[derive(Clone, Debug)]
pub struct RawLocalBackendConfig {
    pub name: String,
    pub system: String,
    pub supported_features: Vec<String>,
    pub maximum_concurrent_builds: usize,
}

pub open spec fn local_fault(raw: RawLocalBackendConfig) -> Option<Fault> {
    if !is_capacity(raw.maximum_concurrent_builds) {
        Some(fault::input_fault("backend concurrent build limit is invalid"))
    } else if !is_target(raw.name@, raw.system@, raw.supported_features@) {
        Some(fault::input_fault("backend target is invalid"))
    } else {
        None
    }
}

pub fn validate_local_backend(raw: RawLocalBackendConfig) -> (made: Result<
    LocalBackendConfig,
    Fault,
>)
    ensures
        match made {
            Ok(backend) => local_fault(raw) is None && backend == (LocalBackendConfig {
                target: BackendTarget {
                    name: raw.name,
                    kind: BackendKind::Local,
                    system: raw.system,
                    features: raw.supported_features,
                },
                maximum_concurrent_builds: raw.maximum_concurrent_builds,
            }),
            Err(refusal) => local_fault(raw) == Some(refusal),
        },
{
    validate_backend_capacity(raw.maximum_concurrent_builds)?;
    let target = BackendTarget::new(
        raw.name,
        BackendKind::Local,
        raw.system,
        raw.supported_features,
    )?;
    Ok(LocalBackendConfig { target, maximum_concurrent_builds: raw.maximum_concurrent_builds })
}

/// What is configured of a backend that is reached over SSH.
#[derive(Clone, Debug)]
pub struct RawStaticSshBackendConfig {
    pub name: String,
    pub system: String,
    pub supported_features: Vec<String>,
    pub maximum_concurrent_builds: usize,
    pub destination: String,
    pub identity_file: Checked,
    pub known_hosts_file: Checked,
    /// The configured program, or the one that is packaged or found on the system.
    pub ssh_program: Checked,
}

/// Why one backend is refused after those before it.
pub open spec fn ssh_backend_fault(
    earlier: Seq<RawStaticSshBackendConfig>,
    raw: RawStaticSshBackendConfig,
) -> Option<Fault> {
    if exists|i: int| 0 <= i < earlier.len() && (#[trigger] earlier[i]).name@ == raw.name@ {
        Some(fault::input_fault("static SSH backend name is ambiguous"))
    } else if !is_capacity(raw.maximum_concurrent_builds) {
        Some(fault::input_fault("backend concurrent build limit is invalid"))
    } else if !is_ssh_destination(raw.destination@) {
        Some(fault::input_fault("static SSH destination is invalid"))
    } else if raw.identity_file.refusal is Some {
        raw.identity_file.refusal
    } else if raw.known_hosts_file.refusal is Some {
        raw.known_hosts_file.refusal
    } else if raw.ssh_program.refusal is Some {
        raw.ssh_program.refusal
    } else if !is_target(raw.name@, raw.system@, raw.supported_features@) {
        Some(fault::input_fault("backend target is invalid"))
    } else {
        None
    }
}

/// The fault of the first backend that has one.
pub open spec fn first_ssh_fault(raw: Seq<RawStaticSshBackendConfig>) -> Option<Fault>
    decreases raw.len(),
{
    if raw.len() == 0 {
        None
    } else {
        match first_ssh_fault(raw.drop_last()) {
            Some(refusal) => Some(refusal),
            None => ssh_backend_fault(raw.drop_last(), raw.last()),
        }
    }
}

pub open spec fn ssh_fault(raw: Seq<RawStaticSshBackendConfig>) -> Option<Fault> {
    if raw.len() > MAXIMUM_STATIC_SSH_BACKENDS {
        Some(fault::input_fault("static SSH backend count exceeds limit"))
    } else {
        first_ssh_fault(raw)
    }
}

proof fn ssh_fault_stays(raw: Seq<RawStaticSshBackendConfig>, count: int)
    requires
        0 <= count <= raw.len(),
        first_ssh_fault(raw.take(count)) is Some,
    ensures
        first_ssh_fault(raw) == first_ssh_fault(raw.take(count)),
    decreases raw.len(),
{
    if count == raw.len() {
        assert(raw.take(count) =~= raw);
    } else {
        assert(raw.drop_last().take(count) =~= raw.take(count));
        ssh_fault_stays(raw.drop_last(), count);
    }
}

/// The backend that a configuration describes.
pub open spec fn ssh_backend_of(raw: RawStaticSshBackendConfig) -> StaticSshBackendConfig {
    StaticSshBackendConfig {
        target: BackendTarget {
            name: raw.name,
            kind: BackendKind::StaticSsh,
            system: raw.system,
            features: raw.supported_features,
        },
        maximum_concurrent_builds: raw.maximum_concurrent_builds,
        ready_check_interval: Span::spec_seconds(DEFAULT_STATIC_SSH_READY_CHECK_INTERVAL_SECONDS),
        unavailable_check_interval: Span::spec_seconds(
            DEFAULT_STATIC_SSH_UNAVAILABLE_CHECK_INTERVAL_SECONDS,
        ),
        check_timeout: Span::spec_seconds(DEFAULT_STATIC_SSH_CHECK_TIMEOUT_SECONDS),
        destination: raw.destination,
        identity_file: raw.identity_file.value,
        known_hosts_file: raw.known_hosts_file.value,
        ssh_program: raw.ssh_program.value,
    }
}

fn ssh_name_taken(backends: &Vec<StaticSshBackendConfig>, name: &str) -> (taken: bool)
    ensures
        taken == exists|i: int|
            0 <= i < backends@.len() && (#[trigger] backends@[i]).target.name@ == name@,
{
    let mut i: usize = 0;
    while i < backends.len()
        invariant
            i <= backends@.len(),
            forall|j: int| 0 <= j < i ==> (#[trigger] backends@[j]).target.name@ != name@,
        decreases backends@.len() - i,
    {
        if text::same_text(backends[i].target.name.as_str(), name) {
            return true;
        }
        i += 1;
    }
    false
}

pub fn validate_static_ssh_backends(raw: Vec<RawStaticSshBackendConfig>) -> (made: Result<
    Vec<StaticSshBackendConfig>,
    Fault,
>)
    ensures
        match made {
            Ok(backends) => {
                &&& ssh_fault(raw@) is None
                &&& backends@ == raw@.map_values(|one: RawStaticSshBackendConfig| ssh_backend_of(one))
            },
            Err(refusal) => ssh_fault(raw@) == Some(refusal),
        },
{
    if raw.len() > MAXIMUM_STATIC_SSH_BACKENDS {
        return Err(invalid_input("static SSH backend count exceeds limit"));
    }
    let ghost whole = raw@;
    let mut backends: Vec<StaticSshBackendConfig> = Vec::new();
    assert(whole.take(0) =~= Seq::<RawStaticSshBackendConfig>::empty());
    for backend in iter: raw
        invariant
            iter.seq() == whole,
            whole.len() <= MAXIMUM_STATIC_SSH_BACKENDS,
            backends@.len() == iter.index(),
            first_ssh_fault(whole.take(iter.index())) is None,
            forall|i: int|
                0 <= i < iter.index() ==> #[trigger] backends@[i] == ssh_backend_of(whole[i]),
    {
        proof {
            let i = iter.index();
            let earlier = whole.take(i);
            assert(whole.take(i + 1).drop_last() =~= earlier);
            if ssh_backend_fault(earlier, whole[i]) is Some {
                ssh_fault_stays(whole, i + 1);
            }
            assert(forall|j: int| 0 <= j < i ==> (#[trigger] earlier[j]).name@ == backends@[j].target.name@);
            assert(forall|j: int| 0 <= j < i ==> (#[trigger] backends@[j]).target.name@ == earlier[j].name@);
        }
        if ssh_name_taken(&backends, backend.name.as_str()) {
            return Err(invalid_input("static SSH backend name is ambiguous"));
        }
        validate_backend_capacity(backend.maximum_concurrent_builds)?;
        if !valid_ssh_destination(backend.destination.as_str()) {
            return Err(invalid_input("static SSH destination is invalid"));
        }
        let identity_file = accept(backend.identity_file)?;
        let known_hosts_file = accept(backend.known_hosts_file)?;
        let ssh_program = accept(backend.ssh_program)?;
        let target = BackendTarget::new(
            backend.name,
            BackendKind::StaticSsh,
            backend.system,
            backend.supported_features,
        )?;
        backends.push(
            StaticSshBackendConfig {
                target,
                maximum_concurrent_builds: backend.maximum_concurrent_builds,
                ready_check_interval: Span::from_seconds(
                    DEFAULT_STATIC_SSH_READY_CHECK_INTERVAL_SECONDS,
                ),
                unavailable_check_interval: Span::from_seconds(
                    DEFAULT_STATIC_SSH_UNAVAILABLE_CHECK_INTERVAL_SECONDS,
                ),
                check_timeout: Span::from_seconds(DEFAULT_STATIC_SSH_CHECK_TIMEOUT_SECONDS),
                destination: backend.destination,
                identity_file,
                known_hosts_file,
                ssh_program,
            },
        );
    }
    assert(whole.take(whole.len() as int) =~= whole);
    assert(backends@ =~= raw@.map_values(|one: RawStaticSshBackendConfig| ssh_backend_of(one)));
    Ok(backends)
}

/// What is configured of the resources of a task.
#[derive(Clone, Copy, Debug, PartialEq, Eq, Structural)]
pub struct RawNomadResources {
    pub cpu_mhz: u64,
    pub memory_mb: u64,
    pub disk_mb: u64,
}

pub open spec fn resources_valid(raw: RawNomadResources) -> bool {
    &&& 0 < raw.cpu_mhz <= MAXIMUM_NOMAD_RESOURCE
    &&& 0 < raw.memory_mb <= MAXIMUM_NOMAD_RESOURCE
    &&& 0 < raw.disk_mb <= MAXIMUM_NOMAD_RESOURCE
}

pub open spec fn resources_of(raw: RawNomadResources) -> NomadResources {
    NomadResources { cpu_mhz: raw.cpu_mhz, memory_mb: raw.memory_mb, disk_mb: raw.disk_mb }
}

pub fn validate_nomad_resources(raw: RawNomadResources) -> (made: Result<NomadResources, Fault>)
    ensures
        resources_valid(raw) ==> made == Ok::<NomadResources, Fault>(resources_of(raw)),
        !resources_valid(raw) ==> made == Err::<NomadResources, Fault>(
            fault::input_fault("Nomad resources are invalid"),
        ),
{
    if raw.cpu_mhz == 0 || raw.cpu_mhz > MAXIMUM_NOMAD_RESOURCE || raw.memory_mb == 0
        || raw.memory_mb > MAXIMUM_NOMAD_RESOURCE || raw.disk_mb == 0 || raw.disk_mb
        > MAXIMUM_NOMAD_RESOURCE {
        return Err(invalid_input("Nomad resources are invalid"));
    }
    Ok(NomadResources { cpu_mhz: raw.cpu_mhz, memory_mb: raw.memory_mb, disk_mb: raw.disk_mb })
}

/// A value of a driver's configuration as it is written. A floating-point number is held by its
/// bits and by the text that it has in JSON, where it has one.
#[derive(Debug)]
pub enum TomlValue {
    Text(String),
    Integer(i64),
    Float { bits: u64, text: String },
    Boolean(bool),
    Datetime,
    Array(Vec<TomlValue>),
    Table(Vec<(String, TomlValue)>),
}

/// The bits of a floating-point number that is neither infinite nor undefined: its exponent is
/// not made of ones alone.
pub open spec fn is_finite(bits: u64) -> bool {
    bits / 0x10_0000_0000_0000 % 0x800 != 0x7ff
}

/// The value can be handed to a driver, this deep in its configuration.
pub open spec fn is_driver_value(value: TomlValue, depth: nat) -> bool
    decreases value,
{
    &&& depth <= MAXIMUM_NOMAD_DRIVER_CONFIG_DEPTH
    &&& match value {
        TomlValue::Text(_) | TomlValue::Integer(_) | TomlValue::Boolean(_) => true,
        TomlValue::Float { bits, .. } => is_finite(bits),
        TomlValue::Datetime => false,
        TomlValue::Array(values) => forall|i: int|
            0 <= i < values@.len() ==> is_driver_value(#[trigger] values@[i], depth + 1),
        TomlValue::Table(values) => forall|i: int|
            0 <= i < values@.len() ==> is_driver_value((#[trigger] values@[i]).1, depth + 1),
    }
}

/// The members of every table in a value are sorted.
pub open spec fn is_ordered_value(value: TomlValue) -> bool
    decreases value,
{
    match value {
        TomlValue::Array(values) => forall|i: int|
            0 <= i < values@.len() ==> is_ordered_value(#[trigger] values@[i]),
        TomlValue::Table(values) => model::sorted_keys(values@) && forall|i: int|
            0 <= i < values@.len() ==> is_ordered_value((#[trigger] values@[i]).1),
        _ => true,
    }
}

/// Members are sorted, and so is everything in them.
pub open spec fn are_ordered_tables(members: Seq<(String, TomlValue)>) -> bool {
    model::sorted_keys(members) && forall|i: int|
        0 <= i < members.len() ==> is_ordered_value((#[trigger] members[i]).1)
}

/// What is made of a sorted value is sorted.
proof fn order_is_kept(json: JsonValue, value: TomlValue)
    requires
        is_json_of(json, value),
        is_ordered_value(value),
    ensures
        model::is_ordered(json),
    decreases value,
{
    match (json, value) {
        (JsonValue::Array(made), TomlValue::Array(written)) => {
            assert forall|i: int| 0 <= i < made@.len() implies model::is_ordered(
                #[trigger] made@[i],
            ) by {
                assert(is_json_of(made@[i], written@[i]));
                assert(decreases_to!(value => value->Array_0));
                assert(decreases_to!(written => written@));
                assert(decreases_to!(written@ => written@[i]));
                order_is_kept(made@[i], written@[i]);
            }
        },
        (JsonValue::Object(made), TomlValue::Table(written)) => {
            assert(is_object_of(made@, written@));
            assert forall|i: int| 0 <= i < made@.len() implies model::is_ordered(
                (#[trigger] made@[i]).1,
            ) by {
                assert(is_json_of(made@[i].1, written@[i].1));
                assert(decreases_to!(value => value->Table_0));
                assert(decreases_to!(written => written@));
                assert(decreases_to!(written@ => written@[i]));
                assert(decreases_to!(written@[i] => written@[i].1));
                order_is_kept(made@[i].1, written@[i].1);
            }
            assert forall|i: int, j: int| 0 <= i < j < made@.len() implies text::precedes(
                (#[trigger] made@[i]).0@,
                (#[trigger] made@[j]).0@,
            ) by {
                assert(made@[i].0@ == written@[i].0@);
                assert(made@[j].0@ == written@[j].0@);
            }
        },
        _ => {},
    }
}

/// Members that are made of sorted ones are sorted.
proof fn order_of_members_is_kept(
    made: Seq<(String, JsonValue)>,
    written: Seq<(String, TomlValue)>,
)
    requires
        is_object_of(made, written),
        are_ordered_tables(written),
    ensures
        model::are_ordered(made),
{
    assert forall|i: int| 0 <= i < made.len() implies model::is_ordered((#[trigger] made[i]).1) by {
        assert(is_json_of(made[i].1, written[i].1));
        order_is_kept(made[i].1, written[i].1);
    }
    assert forall|i: int, j: int| 0 <= i < j < made.len() implies text::precedes(
        (#[trigger] made[i]).0@,
        (#[trigger] made[j]).0@,
    ) by {
        assert(made[i].0@ == written[i].0@);
        assert(made[j].0@ == written[j].0@);
    }
}

/// The value that is handed to a driver says what the written one says.
pub open spec fn is_json_of(json: JsonValue, value: TomlValue) -> bool
    decreases value,
{
    match (json, value) {
        (JsonValue::Text(made), TomlValue::Text(written)) => made@ == written@,
        (JsonValue::Integer(made), TomlValue::Integer(written)) => made == written,
        (JsonValue::Float { bits: made }, TomlValue::Float { bits: written, .. }) => made
            == written,
        (JsonValue::Boolean(made), TomlValue::Boolean(written)) => made == written,
        (JsonValue::Array(made), TomlValue::Array(written)) => {
            &&& made@.len() == written@.len()
            &&& forall|i: int|
                0 <= i < written@.len() ==> is_json_of(made@[i], #[trigger] written@[i])
        },
        (JsonValue::Object(made), TomlValue::Table(written)) => is_object_of(made@, written@),
        _ => false,
    }
}

/// The members that are handed to a driver say what the written ones say.
pub open spec fn is_object_of(
    made: Seq<(String, JsonValue)>,
    written: Seq<(String, TomlValue)>,
) -> bool
    decreases written,
{
    &&& made.len() == written.len()
    &&& forall|i: int|
        0 <= i < written.len() ==> made[i].0@ == (#[trigger] written[i]).0@ && is_json_of(
            made[i].1,
            written[i].1,
        )
}

fn toml_members_to_json(values: &Vec<(String, TomlValue)>, depth: usize) -> (json: Result<
    Vec<(String, JsonValue)>,
    Fault,
>)
    requires
        depth <= MAXIMUM_NOMAD_DRIVER_CONFIG_DEPTH,
    ensures
        match json {
            Ok(members) => is_object_of(members@, values@) && forall|i: int|
                0 <= i < values@.len() ==> is_driver_value((#[trigger] values@[i]).1, (depth + 1) as nat),
            Err(refusal) => refusal == fault::input_fault("Nomad driver configuration is invalid")
                && exists|i: int|
                0 <= i < values@.len() && !is_driver_value(
                    (#[trigger] values@[i]).1,
                    (depth + 1) as nat,
                ),
        },
    decreases MAXIMUM_NOMAD_DRIVER_CONFIG_DEPTH - depth, 0int,
{
    let mut members: Vec<(String, JsonValue)> = Vec::new();
    let mut i: usize = 0;
    while i < values.len()
        invariant
            depth <= MAXIMUM_NOMAD_DRIVER_CONFIG_DEPTH,
            i <= values@.len(),
            members@.len() == i,
            forall|j: int|
                0 <= j < i ==> (#[trigger] members@[j]).0@ == values@[j].0@ && is_json_of(
                    members@[j].1,
                    values@[j].1,
                ),
            forall|j: int|
                0 <= j < i ==> is_driver_value((#[trigger] values@[j]).1, (depth + 1) as nat),
        decreases values@.len() - i,
    {
        if depth == MAXIMUM_NOMAD_DRIVER_CONFIG_DEPTH {
            assert(!is_driver_value(values@[i as int].1, (depth + 1) as nat));
            return Err(invalid_input("Nomad driver configuration is invalid"));
        }
        match toml_to_json(&values[i].1, depth + 1) {
            Ok(json) => {
                members.push((values[i].0.clone(), json));
            },
            Err(refusal) => {
                return Err(refusal);
            },
        }
        i += 1;
    }
    Ok(members)
}

/// What is nested in an array for a driver is for a driver too.
proof fn nested_value(value: TomlValue, place: int, depth: nat)
    requires
        value is Array,
        0 <= place < value->Array_0@.len(),
    ensures
        is_driver_value(value, depth) ==> is_driver_value(value->Array_0@[place], depth + 1),
{
    reveal_with_fuel(is_driver_value, 2);
}

/// Turns a written value into one for a driver. Dates, numbers that are not finite and values
/// that are nested too deeply are refused.
pub fn toml_to_json(value: &TomlValue, depth: usize) -> (json: Result<JsonValue, Fault>)
    ensures
        match json {
            Ok(made) => is_driver_value(*value, depth as nat) && is_json_of(made, *value),
            Err(refusal) => !is_driver_value(*value, depth as nat) && refusal
                == fault::input_fault("Nomad driver configuration is invalid"),
        },
    decreases
            (if depth <= MAXIMUM_NOMAD_DRIVER_CONFIG_DEPTH {
                MAXIMUM_NOMAD_DRIVER_CONFIG_DEPTH - depth
            } else {
                0
            }),
            1int,
{
    if depth > MAXIMUM_NOMAD_DRIVER_CONFIG_DEPTH {
        return Err(invalid_input("Nomad driver configuration is invalid"));
    }
    match value {
        TomlValue::Text(written) => Ok(JsonValue::Text(written.clone())),
        TomlValue::Integer(written) => Ok(JsonValue::Integer(*written)),
        TomlValue::Float { bits, .. } => {
            if *bits / 0x10_0000_0000_0000 % 0x800 == 0x7ff {
                return Err(invalid_input("Nomad driver configuration is invalid"));
            }
            Ok(JsonValue::Float { bits: *bits })
        },
        TomlValue::Boolean(written) => Ok(JsonValue::Boolean(*written)),
        TomlValue::Datetime => Err(invalid_input("Nomad driver configuration is invalid")),
        TomlValue::Array(values) => {
            let mut made: Vec<JsonValue> = Vec::new();
            let mut i: usize = 0;
            while i < values.len()
                invariant
                    *value == TomlValue::Array(*values),
                    depth <= MAXIMUM_NOMAD_DRIVER_CONFIG_DEPTH,
                    i <= values@.len(),
                    made@.len() == i,
                    forall|j: int| 0 <= j < i ==> is_json_of(#[trigger] made@[j], values@[j]),
                    forall|j: int|
                        0 <= j < i ==> is_driver_value(#[trigger] values@[j], (depth + 1) as nat),
                decreases values@.len() - i,
            {
                proof {
                    nested_value(*value, i as int, depth as nat);
                }
                if depth == MAXIMUM_NOMAD_DRIVER_CONFIG_DEPTH {
                    assert(!is_driver_value(values@[i as int], (depth + 1) as nat));
                    return Err(invalid_input("Nomad driver configuration is invalid"));
                }
                match toml_to_json(&values[i], depth + 1) {
                    Ok(json) => {
                        made.push(json);
                    },
                    Err(refusal) => {
                        return Err(refusal);
                    },
                }
                i += 1;
            }
            Ok(JsonValue::Array(made))
        },
        TomlValue::Table(values) => match toml_members_to_json(values, depth) {
            Ok(members) => Ok(JsonValue::Object(members)),
            Err(refusal) => Err(refusal),
        },
    }
}

/// A value as JSON, with nothing between the parts of an array or an object but commas.
pub open spec fn json_text(value: TomlValue) -> Seq<char>
    decreases value,
{
    match value {
        TomlValue::Text(written) => crypto::json_string(written@),
        TomlValue::Integer(written) => text::signed_text(written as int),
        TomlValue::Float { text: written, .. } => written@,
        TomlValue::Boolean(written) => if written {
            "true"@
        } else {
            "false"@
        },
        TomlValue::Datetime => Seq::empty(),
        TomlValue::Array(values) => "["@ + values_text(values@) + "]"@,
        TomlValue::Table(members) => "{"@ + members_text(members@) + "}"@,
    }
}

/// The values of an array as JSON.
pub open spec fn values_text(values: Seq<TomlValue>) -> Seq<char>
    decreases values,
{
    if values.len() == 0 {
        Seq::empty()
    } else {
        values_text(values.drop_last()) + (if values.len() > 1 {
            ","@
        } else {
            Seq::empty()
        }) + json_text(values[values.len() - 1])
    }
}

/// The members of an object as JSON.
pub open spec fn members_text(members: Seq<(String, TomlValue)>) -> Seq<char>
    decreases members,
{
    if members.len() == 0 {
        Seq::empty()
    } else {
        members_text(members.drop_last()) + (if members.len() > 1 {
            ","@
        } else {
            Seq::empty()
        }) + crypto::json_string(members[members.len() - 1].0@) + ":"@ + json_text(
            members[members.len() - 1].1,
        )
    }
}

/// An object as JSON.
pub open spec fn object_text(members: Seq<(String, TomlValue)>) -> Seq<char> {
    "{"@ + members_text(members) + "}"@
}

/// Writes a value as JSON.
fn append_json(output: &mut String, value: &TomlValue)
    ensures
        final(output)@ == old(output)@ + json_text(*value),
    decreases *value,
{
    let ghost before = output@;
    match value {
        TomlValue::Text(written) => {
            output.append(crypto::json_string_text(written.as_str()).as_str());
        },
        TomlValue::Integer(written) => text::append_signed(output, *written),
        TomlValue::Float { text: written, .. } => output.append(written.as_str()),
        TomlValue::Boolean(written) => {
            if *written {
                output.append("true");
            } else {
                output.append("false");
            }
        },
        TomlValue::Datetime => {
            assert(output@ =~= before + Seq::<char>::empty());
        },
        TomlValue::Array(values) => {
            output.append("[");
            let mut i: usize = 0;
            assert(values@.take(0) =~= Seq::<TomlValue>::empty());
            assert(output@ =~= before + "["@ + values_text(values@.take(0)));
            while i < values.len()
                invariant
                    *value == TomlValue::Array(*values),
                    i <= values@.len(),
                    output@ == before + "["@ + values_text(values@.take(i as int)),
                decreases values@.len() - i,
            {
                let ghost next = values@.take(i + 1);
                assert(next.drop_last() =~= values@.take(i as int));
                if i > 0 {
                    output.append(",");
                }
                proof {
                    assert(decreases_to!(*value => value->Array_0));
                    assert(decreases_to!(values => values@));
                    assert(decreases_to!(values@ => values@[i as int]));
                }
                append_json(output, &values[i]);
                assert(output@ =~= before + "["@ + values_text(next));
                i += 1;
            }
            assert(values@.take(values@.len() as int) =~= values@);
            output.append("]");
            assert(output@ =~= before + json_text(*value));
        },
        TomlValue::Table(members) => {
            output.append("{");
            let mut i: usize = 0;
            assert(members@.take(0) =~= Seq::<(String, TomlValue)>::empty());
            assert(output@ =~= before + "{"@ + members_text(members@.take(0)));
            while i < members.len()
                invariant
                    *value == TomlValue::Table(*members),
                    i <= members@.len(),
                    output@ == before + "{"@ + members_text(members@.take(i as int)),
                decreases members@.len() - i,
            {
                let ghost next = members@.take(i + 1);
                assert(next.drop_last() =~= members@.take(i as int));
                if i > 0 {
                    output.append(",");
                }
                output.append(crypto::json_string_text(members[i].0.as_str()).as_str());
                output.append(":");
                proof {
                    assert(decreases_to!(*value => value->Table_0));
                    assert(decreases_to!(members => members@));
                    assert(decreases_to!(members@ => members@[i as int]));
                    assert(decreases_to!(members@[i as int] => members@[i as int].1));
                }
                append_json(output, &members[i].1);
                assert(output@ =~= before + "{"@ + members_text(next));
                i += 1;
            }
            assert(members@.take(members@.len() as int) =~= members@);
            output.append("}");
            assert(output@ =~= before + json_text(*value));
        },
    }
}

/// Writes an object as JSON.
fn object_json(members: &Vec<(String, TomlValue)>) -> (written: String)
    ensures
        written@ == object_text(members@),
{
    let mut output = "{".to_owned();
    let mut i: usize = 0;
    assert(members@.take(0) =~= Seq::<(String, TomlValue)>::empty());
    assert(output@ =~= "{"@ + members_text(members@.take(0)));
    while i < members.len()
        invariant
            i <= members@.len(),
            output@ == "{"@ + members_text(members@.take(i as int)),
        decreases members@.len() - i,
    {
        let ghost next = members@.take(i + 1);
        assert(next.drop_last() =~= members@.take(i as int));
        if i > 0 {
            output.append(",");
        }
        output.append(crypto::json_string_text(members[i].0.as_str()).as_str());
        output.append(":");
        append_json(&mut output, &members[i].1);
        assert(output@ =~= "{"@ + members_text(next));
        i += 1;
    }
    assert(members@.take(members@.len() as int) =~= members@);
    output.append("}");
    output
}

/// A driver's configuration as it is written.
#[derive(Debug)]
pub struct RawDriverConfig {
    pub members: Vec<(String, TomlValue)>,
}

impl RawDriverConfig {
    /// The members are sorted, as are those of every table in them.
    pub open spec fn well_formed(self) -> bool {
        are_ordered_tables(self.members@)
    }
}

/// Why a driver's configuration is refused: it has no members or too many, one of them cannot be
/// handed to a driver, or it is too long as JSON.
pub open spec fn driver_fault(raw: RawDriverConfig) -> Option<Fault> {
    let members = raw.members@;
    if members.len() == 0 || members.len() > MAXIMUM_NOMAD_DRIVER_CONFIG_ENTRIES || (exists|i: int|
        0 <= i < members.len() && !is_driver_value((#[trigger] members[i]).1, 1)) {
        Some(fault::input_fault("Nomad driver configuration is invalid"))
    } else if text::byte_length(object_text(members)) > MAXIMUM_NOMAD_DRIVER_CONFIG_BYTES {
        Some(fault::input_fault("Nomad driver configuration exceeds limit"))
    } else {
        None
    }
}

pub fn validate_driver_config(raw: &RawDriverConfig) -> (made: Result<
    Vec<(String, JsonValue)>,
    Fault,
>)
    requires
        raw.well_formed(),
    ensures
        match made {
            Ok(members) => driver_fault(*raw) is None && is_object_of(members@, raw.members@)
                && model::are_ordered(members@),
            Err(refusal) => driver_fault(*raw) == Some(refusal),
        },
{
    if raw.members.len() == 0 || raw.members.len() > MAXIMUM_NOMAD_DRIVER_CONFIG_ENTRIES {
        return Err(invalid_input("Nomad driver configuration is invalid"));
    }
    let members = toml_members_to_json(&raw.members, 0)?;
    proof {
        order_of_members_is_kept(members@, raw.members@);
    }
    let written = object_json(&raw.members);
    if text::length_in_bytes(written.as_str()) > MAXIMUM_NOMAD_DRIVER_CONFIG_BYTES {
        return Err(invalid_input("Nomad driver configuration exceeds limit"));
    }
    Ok(members)
}

/// What is configured of how workers authenticate.
#[derive(Clone, Debug)]
pub enum RawNomadTransferAuthentication {
    WorkloadIdentity {
        issuer: String,
        jwks_url: String,
        audience: String,
        ca_certificate_file: Option<Checked>,
    },
    Hmac { key_id: String, secret_file: Checked },
}

pub open spec fn authentication_fault(raw: RawNomadTransferAuthentication) -> Option<Fault> {
    match raw {
        RawNomadTransferAuthentication::WorkloadIdentity {
            issuer,
            jwks_url,
            audience,
            ca_certificate_file,
        } => if !is_nomad_endpoint(issuer@) || !is_nomad_endpoint(jwks_url@) {
            Some(fault::input_fault("Nomad workload identity endpoint is invalid"))
        } else if !is_subject(audience@) {
            Some(fault::input_fault("Nomad workload identity audience is invalid"))
        } else {
            option_refusal(ca_certificate_file)
        },
        RawNomadTransferAuthentication::Hmac { key_id, secret_file } => if !is_subject(key_id@) {
            Some(fault::input_fault("Nomad transfer HMAC key ID is invalid"))
        } else {
            secret_file.refusal
        },
    }
}

pub open spec fn authentication_of(raw: RawNomadTransferAuthentication) -> NomadTransferAuthentication {
    match raw {
        RawNomadTransferAuthentication::WorkloadIdentity {
            issuer,
            jwks_url,
            audience,
            ca_certificate_file,
        } => NomadTransferAuthentication::WorkloadIdentity {
            issuer,
            jwks_url,
            audience,
            ca_certificate_file: option_value(ca_certificate_file),
        },
        RawNomadTransferAuthentication::Hmac { key_id, secret_file } => {
            NomadTransferAuthentication::Hmac { key_id, secret_file: secret_file.value }
        },
    }
}

pub fn validate_nomad_transfer_authentication(raw: RawNomadTransferAuthentication) -> (made: Result<
    NomadTransferAuthentication,
    Fault,
>)
    ensures
        match authentication_fault(raw) {
            Some(refusal) => made == Err::<NomadTransferAuthentication, Fault>(refusal),
            None => made == Ok::<NomadTransferAuthentication, Fault>(authentication_of(raw)),
        },
{
    match raw {
        RawNomadTransferAuthentication::WorkloadIdentity {
            issuer,
            jwks_url,
            audience,
            ca_certificate_file,
        } => {
            if !valid_nomad_endpoint(issuer.as_str()) || !valid_nomad_endpoint(jwks_url.as_str()) {
                return Err(invalid_input("Nomad workload identity endpoint is invalid"));
            }
            let audience = validate_subject(
                audience,
                "Nomad workload identity audience is invalid",
            )?;
            let ca_certificate_file = accept_option(ca_certificate_file)?;
            Ok(
                NomadTransferAuthentication::WorkloadIdentity {
                    issuer,
                    jwks_url,
                    audience,
                    ca_certificate_file,
                },
            )
        },
        RawNomadTransferAuthentication::Hmac { key_id, secret_file } => {
            let key_id = validate_subject(key_id, "Nomad transfer HMAC key ID is invalid")?;
            let secret_file = accept(secret_file)?;
            Ok(NomadTransferAuthentication::Hmac { key_id, secret_file })
        },
    }
}

/// A store URI: bounded, and without ASCII white space or control characters.
pub open spec fn is_store_uri(uri: Seq<char>) -> bool {
    &&& 0 < text::byte_length(uri) <= MAXIMUM_NOMAD_STORE_URI_BYTES
    &&& forall|i: int|
        0 <= i < uri.len() ==> 0x20 < (#[trigger] uri[i]) as u32 && uri[i] as u32 != 0x7f
}

pub fn validate_nomad_store(uri: String) -> (made: Result<NomadStoreConfig, Fault>)
    ensures
        is_store_uri(uri@) ==> made == Ok::<NomadStoreConfig, Fault>(NomadStoreConfig { uri }),
        !is_store_uri(uri@) ==> made == Err::<NomadStoreConfig, Fault>(
            fault::input_fault("Nomad store URI is invalid"),
        ),
{
    let length: usize = text::length_in_bytes(uri.as_str());
    if length == 0 || length > MAXIMUM_NOMAD_STORE_URI_BYTES {
        return Err(invalid_input("Nomad store URI is invalid"));
    }
    let characters = text::characters(uri.as_str());
    let mut i: usize = 0;
    while i < characters.len()
        invariant
            characters@ == uri@,
            i <= characters@.len(),
            forall|j: int|
                0 <= j < i ==> 0x20 < (#[trigger] uri@[j]) as u32 && uri@[j] as u32 != 0x7f,
        decreases characters@.len() - i,
    {
        let code: u32 = characters[i] as u32;
        if code <= 0x20 || code == 0x7f {
            assert(!(0x20 < uri@[i as int] as u32 && uri@[i as int] as u32 != 0x7f));
            return Err(invalid_input("Nomad store URI is invalid"));
        }
        i += 1;
    }
    Ok(NomadStoreConfig { uri })
}

/// What is configured of the bounds of transfers.
#[derive(Clone, Copy, Debug, PartialEq, Eq, Structural)]
pub struct RawNomadTransferLimits {
    pub maximum_manifest_paths: usize,
    pub maximum_manifest_bytes: u64,
    pub maximum_input_nar_bytes: u64,
    pub maximum_total_input_bytes: u64,
    pub maximum_output_nar_bytes: u64,
    pub maximum_total_output_bytes: u64,
    pub maximum_frame_metadata_bytes: usize,
    pub stream_buffer_bytes: usize,
    pub maximum_live_log_chunk_bytes: usize,
    pub live_log_queue_bytes: usize,
    pub transfer_idle_timeout_seconds: u64,
    pub setup_timeout_seconds: u64,
    pub output_collection_timeout_seconds: u64,
    pub maximum_connection_lifetime_seconds: u64,
    pub authentication_lifetime_seconds: u64,
    pub clock_skew_seconds: u64,
    pub nonce_retention_seconds: u64,
    pub reconnect_timeout_seconds: u64,
    pub maximum_diagnostic_bytes: usize,
}

pub open spec fn is_transfer_bytes(value: u64) -> bool {
    0 < value <= MAXIMUM_NOMAD_TRANSFER_BYTES
}

pub open spec fn is_transfer_memory(value: usize) -> bool {
    0 < value <= MAXIMUM_NOMAD_TRANSFER_MEMORY_BYTES
}

pub open spec fn is_transfer_timeout(value: u64) -> bool {
    0 < value <= MAXIMUM_NOMAD_TRANSFER_TIMEOUT_SECONDS
}

pub fn valid_transfer_bytes(value: u64) -> (valid: bool)
    ensures
        valid == is_transfer_bytes(value),
{
    value > 0 && value <= MAXIMUM_NOMAD_TRANSFER_BYTES
}

pub fn valid_transfer_memory(value: usize) -> (valid: bool)
    ensures
        valid == is_transfer_memory(value),
{
    value > 0 && value <= MAXIMUM_NOMAD_TRANSFER_MEMORY_BYTES
}

pub fn valid_transfer_timeout(value: u64) -> (valid: bool)
    ensures
        valid == is_transfer_timeout(value),
{
    value > 0 && value <= MAXIMUM_NOMAD_TRANSFER_TIMEOUT_SECONDS
}

/// Every bound is in range, a single NAR fits the total, a log chunk fits its queue, and a nonce
/// is retained for as long as its proof can be accepted.
pub open spec fn transfer_limits_valid(raw: RawNomadTransferLimits) -> bool {
    &&& 0 < raw.maximum_manifest_paths <= MAXIMUM_NOMAD_TRANSFER_PATHS
    &&& is_transfer_bytes(raw.maximum_manifest_bytes)
    &&& is_transfer_bytes(raw.maximum_input_nar_bytes)
    &&& is_transfer_bytes(raw.maximum_total_input_bytes)
    &&& is_transfer_bytes(raw.maximum_output_nar_bytes)
    &&& is_transfer_bytes(raw.maximum_total_output_bytes)
    &&& raw.maximum_input_nar_bytes <= raw.maximum_total_input_bytes
    &&& raw.maximum_output_nar_bytes <= raw.maximum_total_output_bytes
    &&& is_transfer_memory(raw.maximum_frame_metadata_bytes)
    &&& is_transfer_memory(raw.stream_buffer_bytes)
    &&& is_transfer_memory(raw.maximum_live_log_chunk_bytes)
    &&& is_transfer_memory(raw.live_log_queue_bytes)
    &&& raw.maximum_live_log_chunk_bytes <= raw.live_log_queue_bytes
    &&& is_transfer_timeout(raw.transfer_idle_timeout_seconds)
    &&& is_transfer_timeout(raw.setup_timeout_seconds)
    &&& is_transfer_timeout(raw.output_collection_timeout_seconds)
    &&& is_transfer_timeout(raw.maximum_connection_lifetime_seconds)
    &&& 0 < raw.authentication_lifetime_seconds <= MAXIMUM_NOMAD_AUTHENTICATION_SECONDS
    &&& raw.clock_skew_seconds <= MAXIMUM_NOMAD_AUTHENTICATION_SECONDS
    &&& 0 < raw.nonce_retention_seconds <= MAXIMUM_NOMAD_NONCE_RETENTION_SECONDS
    &&& raw.authentication_lifetime_seconds + raw.clock_skew_seconds <= raw.nonce_retention_seconds
    &&& is_transfer_timeout(raw.reconnect_timeout_seconds)
    &&& is_transfer_memory(raw.maximum_diagnostic_bytes)
}

pub open spec fn transfer_limits_of(raw: RawNomadTransferLimits) -> NomadTransferLimits {
    NomadTransferLimits {
        maximum_manifest_paths: raw.maximum_manifest_paths,
        maximum_manifest_bytes: raw.maximum_manifest_bytes,
        maximum_input_nar_bytes: raw.maximum_input_nar_bytes,
        maximum_total_input_bytes: raw.maximum_total_input_bytes,
        maximum_output_nar_bytes: raw.maximum_output_nar_bytes,
        maximum_total_output_bytes: raw.maximum_total_output_bytes,
        maximum_frame_metadata_bytes: raw.maximum_frame_metadata_bytes,
        stream_buffer_bytes: raw.stream_buffer_bytes,
        maximum_live_log_chunk_bytes: raw.maximum_live_log_chunk_bytes,
        live_log_queue_bytes: raw.live_log_queue_bytes,
        transfer_idle_timeout: Span::spec_seconds(raw.transfer_idle_timeout_seconds),
        setup_timeout: Span::spec_seconds(raw.setup_timeout_seconds),
        output_collection_timeout: Span::spec_seconds(raw.output_collection_timeout_seconds),
        maximum_connection_lifetime: Span::spec_seconds(raw.maximum_connection_lifetime_seconds),
        authentication_lifetime: Span::spec_seconds(raw.authentication_lifetime_seconds),
        clock_skew: Span::spec_seconds(raw.clock_skew_seconds),
        nonce_retention: Span::spec_seconds(raw.nonce_retention_seconds),
        reconnect_timeout: Span::spec_seconds(raw.reconnect_timeout_seconds),
        maximum_diagnostic_bytes: raw.maximum_diagnostic_bytes,
    }
}

pub fn validate_nomad_transfer_limits(raw: RawNomadTransferLimits) -> (made: Result<
    NomadTransferLimits,
    Fault,
>)
    ensures
        transfer_limits_valid(raw) ==> made == Ok::<NomadTransferLimits, Fault>(
            transfer_limits_of(raw),
        ),
        !transfer_limits_valid(raw) ==> made == Err::<NomadTransferLimits, Fault>(
            fault::input_fault("Nomad transfer limits are invalid"),
        ),
{
    if raw.maximum_manifest_paths == 0 || raw.maximum_manifest_paths > MAXIMUM_NOMAD_TRANSFER_PATHS
        || !valid_transfer_bytes(raw.maximum_manifest_bytes) || !valid_transfer_bytes(
        raw.maximum_input_nar_bytes,
    ) || !valid_transfer_bytes(raw.maximum_total_input_bytes) || !valid_transfer_bytes(
        raw.maximum_output_nar_bytes,
    ) || !valid_transfer_bytes(raw.maximum_total_output_bytes) || raw.maximum_input_nar_bytes
        > raw.maximum_total_input_bytes || raw.maximum_output_nar_bytes
        > raw.maximum_total_output_bytes || !valid_transfer_memory(raw.maximum_frame_metadata_bytes)
        || !valid_transfer_memory(raw.stream_buffer_bytes) || !valid_transfer_memory(
        raw.maximum_live_log_chunk_bytes,
    ) || !valid_transfer_memory(raw.live_log_queue_bytes) || raw.maximum_live_log_chunk_bytes
        > raw.live_log_queue_bytes || !valid_transfer_timeout(raw.transfer_idle_timeout_seconds)
        || !valid_transfer_timeout(raw.setup_timeout_seconds) || !valid_transfer_timeout(
        raw.output_collection_timeout_seconds,
    ) || !valid_transfer_timeout(raw.maximum_connection_lifetime_seconds)
        || raw.authentication_lifetime_seconds == 0 || raw.authentication_lifetime_seconds
        > MAXIMUM_NOMAD_AUTHENTICATION_SECONDS || raw.clock_skew_seconds
        > MAXIMUM_NOMAD_AUTHENTICATION_SECONDS || raw.nonce_retention_seconds == 0
        || raw.nonce_retention_seconds > MAXIMUM_NOMAD_NONCE_RETENTION_SECONDS
        || raw.nonce_retention_seconds < raw.authentication_lifetime_seconds
        + raw.clock_skew_seconds || !valid_transfer_timeout(raw.reconnect_timeout_seconds)
        || !valid_transfer_memory(raw.maximum_diagnostic_bytes) {
        return Err(invalid_input("Nomad transfer limits are invalid"));
    }
    Ok(
        NomadTransferLimits {
            maximum_manifest_paths: raw.maximum_manifest_paths,
            maximum_manifest_bytes: raw.maximum_manifest_bytes,
            maximum_input_nar_bytes: raw.maximum_input_nar_bytes,
            maximum_total_input_bytes: raw.maximum_total_input_bytes,
            maximum_output_nar_bytes: raw.maximum_output_nar_bytes,
            maximum_total_output_bytes: raw.maximum_total_output_bytes,
            maximum_frame_metadata_bytes: raw.maximum_frame_metadata_bytes,
            stream_buffer_bytes: raw.stream_buffer_bytes,
            maximum_live_log_chunk_bytes: raw.maximum_live_log_chunk_bytes,
            live_log_queue_bytes: raw.live_log_queue_bytes,
            transfer_idle_timeout: Span::from_seconds(raw.transfer_idle_timeout_seconds),
            setup_timeout: Span::from_seconds(raw.setup_timeout_seconds),
            output_collection_timeout: Span::from_seconds(raw.output_collection_timeout_seconds),
            maximum_connection_lifetime: Span::from_seconds(
                raw.maximum_connection_lifetime_seconds,
            ),
            authentication_lifetime: Span::from_seconds(raw.authentication_lifetime_seconds),
            clock_skew: Span::from_seconds(raw.clock_skew_seconds),
            nonce_retention: Span::from_seconds(raw.nonce_retention_seconds),
            reconnect_timeout: Span::from_seconds(raw.reconnect_timeout_seconds),
            maximum_diagnostic_bytes: raw.maximum_diagnostic_bytes,
        },
    )
}

/// What is configured of a task that runs before the build.
#[derive(Debug)]
pub struct RawNomadPrestartConfig {
    pub driver: String,
    pub driver_config: RawDriverConfig,
    pub resources: RawNomadResources,
    pub timeout_seconds: u64,
}

impl RawNomadPrestartConfig {
    /// The configuration of the driver is sorted.
    pub open spec fn well_formed(self) -> bool {
        self.driver_config.well_formed()
    }
}

impl RawNomadBackendConfig {
    /// The configurations of the drivers are sorted.
    pub open spec fn well_formed(self) -> bool {
        self.driver_config.well_formed() && match self.prestart {
            Some(prestart) => prestart.well_formed(),
            None => true,
        }
    }
}

pub open spec fn prestart_fault(raw: RawNomadPrestartConfig) -> Option<Fault> {
    if !is_transfer_timeout(raw.timeout_seconds) {
        Some(fault::input_fault("Nomad prestart timeout is invalid"))
    } else if !is_subject(raw.driver@) {
        Some(fault::input_fault("Nomad prestart task driver is invalid"))
    } else if driver_fault(raw.driver_config) is Some {
        driver_fault(raw.driver_config)
    } else if !resources_valid(raw.resources) {
        Some(fault::input_fault("Nomad resources are invalid"))
    } else {
        None
    }
}

pub open spec fn prestart_matches(made: NomadPrestartConfig, raw: RawNomadPrestartConfig) -> bool {
    &&& made.driver@ == raw.driver@
    &&& is_object_of(made.driver_config@, raw.driver_config.members@)
    &&& made.resources == resources_of(raw.resources)
    &&& made.timeout == Span::spec_seconds(raw.timeout_seconds)
}

pub fn validate_nomad_prestart(raw: RawNomadPrestartConfig) -> (made: Result<
    NomadPrestartConfig,
    Fault,
>)
    requires
        raw.well_formed(),
    ensures
        match made {
            Ok(config) => prestart_fault(raw) is None && prestart_matches(config, raw)
                && config.well_formed(),
            Err(refusal) => prestart_fault(raw) == Some(refusal),
        },
{
    if !valid_transfer_timeout(raw.timeout_seconds) {
        return Err(invalid_input("Nomad prestart timeout is invalid"));
    }
    let driver = validate_subject(raw.driver, "Nomad prestart task driver is invalid")?;
    let driver_config = validate_driver_config(&raw.driver_config)?;
    let resources = validate_nomad_resources(raw.resources)?;
    Ok(
        NomadPrestartConfig {
            driver,
            driver_config,
            resources,
            timeout: Span::from_seconds(raw.timeout_seconds),
        },
    )
}

/// What is configured of a backend that schedules builds on Nomad.
#[derive(Debug)]
pub struct RawNomadBackendConfig {
    pub name: String,
    pub system: String,
    pub supported_features: Vec<String>,
    pub maximum_concurrent_builds: usize,
    pub endpoint: String,
    pub namespace: String,
    pub token_file: Option<Checked>,
    pub ca_certificate_file: Option<Checked>,
    pub client_certificate_file: Option<Checked>,
    pub client_key_file: Option<Checked>,
    pub driver: String,
    pub driver_config: RawDriverConfig,
    pub resources: RawNomadResources,
    pub job_name_scope: String,
    pub poll_interval_seconds: u64,
    pub runtime_limit_seconds: u64,
    pub transfer_endpoint: Option<String>,
    pub transfer_authentication: RawNomadTransferAuthentication,
    pub store_uri: String,
    pub transfer_limits: RawNomadTransferLimits,
    pub prestart: Option<RawNomadPrestartConfig>,
}

pub open spec fn timing_valid(raw: RawNomadBackendConfig) -> bool {
    &&& 0 < raw.poll_interval_seconds <= MAXIMUM_NOMAD_POLL_INTERVAL_SECONDS
    &&& 0 < raw.runtime_limit_seconds <= MAXIMUM_NOMAD_RUNTIME_LIMIT_SECONDS
    &&& raw.poll_interval_seconds <= raw.runtime_limit_seconds
}

pub open spec fn transfer_endpoint_of(raw: RawNomadBackendConfig, default: Seq<char>) -> Seq<char> {
    match raw.transfer_endpoint {
        Some(endpoint) => endpoint@,
        None => default,
    }
}

pub open spec fn option_prestart_fault(raw: Option<RawNomadPrestartConfig>) -> Option<Fault> {
    match raw {
        Some(prestart) => prestart_fault(prestart),
        None => None,
    }
}

/// Why one backend is refused after those before it.
pub open spec fn nomad_backend_fault(
    earlier: Seq<RawNomadBackendConfig>,
    raw: RawNomadBackendConfig,
    default_endpoint: Seq<char>,
) -> Option<Fault> {
    if exists|i: int| 0 <= i < earlier.len() && (#[trigger] earlier[i]).name@ == raw.name@ {
        Some(fault::input_fault("Nomad backend name is ambiguous"))
    } else if !is_capacity(raw.maximum_concurrent_builds) {
        Some(fault::input_fault("backend concurrent build limit is invalid"))
    } else if !is_nomad_endpoint(raw.endpoint@) {
        Some(fault::input_fault("Nomad endpoint is invalid"))
    } else if !is_subject(raw.namespace@) {
        Some(fault::input_fault("Nomad namespace is invalid"))
    } else if !is_subject(raw.driver@) {
        Some(fault::input_fault("Nomad task driver is invalid"))
    } else if !is_subject(raw.job_name_scope@) {
        Some(fault::input_fault("Nomad job-name scope is invalid"))
    } else if !timing_valid(raw) {
        Some(fault::input_fault("Nomad timing bounds are invalid"))
    } else if !resources_valid(raw.resources) {
        Some(fault::input_fault("Nomad resources are invalid"))
    } else if option_refusal(raw.token_file) is Some {
        option_refusal(raw.token_file)
    } else if option_refusal(raw.ca_certificate_file) is Some {
        option_refusal(raw.ca_certificate_file)
    } else if option_refusal(raw.client_certificate_file) is Some {
        option_refusal(raw.client_certificate_file)
    } else if option_refusal(raw.client_key_file) is Some {
        option_refusal(raw.client_key_file)
    } else if raw.client_certificate_file is Some != raw.client_key_file is Some {
        Some(
            fault::input_fault("Nomad client certificate and key must be configured together"),
        )
    } else if driver_fault(raw.driver_config) is Some {
        driver_fault(raw.driver_config)
    } else if !is_nomad_transfer_endpoint(transfer_endpoint_of(raw, default_endpoint)) {
        Some(fault::input_fault("Nomad transfer endpoint is invalid"))
    } else if authentication_fault(raw.transfer_authentication) is Some {
        authentication_fault(raw.transfer_authentication)
    } else if !is_store_uri(raw.store_uri@) {
        Some(fault::input_fault("Nomad store URI is invalid"))
    } else if !transfer_limits_valid(raw.transfer_limits) {
        Some(fault::input_fault("Nomad transfer limits are invalid"))
    } else if option_prestart_fault(raw.prestart) is Some {
        option_prestart_fault(raw.prestart)
    } else if !is_target(raw.name@, raw.system@, raw.supported_features@) {
        Some(fault::input_fault("backend target is invalid"))
    } else {
        None
    }
}

/// The backend is the one that is configured.
pub open spec fn nomad_backend_matches(
    made: NomadBackendConfig,
    raw: RawNomadBackendConfig,
    default_endpoint: Seq<char>,
) -> bool {
    &&& made.target == (BackendTarget {
        name: raw.name,
        kind: BackendKind::Nomad,
        system: raw.system,
        features: raw.supported_features,
    })
    &&& made.maximum_concurrent_builds == raw.maximum_concurrent_builds
    &&& made.endpoint == raw.endpoint
    &&& made.namespace == raw.namespace
    &&& made.token_file == option_value(raw.token_file)
    &&& made.ca_certificate_file == option_value(raw.ca_certificate_file)
    &&& made.client_certificate_file == option_value(raw.client_certificate_file)
    &&& made.client_key_file == option_value(raw.client_key_file)
    &&& made.driver == raw.driver
    &&& is_object_of(made.driver_config@, raw.driver_config.members@)
    &&& made.resources == resources_of(raw.resources)
    &&& made.job_name_scope == raw.job_name_scope
    &&& made.poll_interval == Span::spec_seconds(raw.poll_interval_seconds)
    &&& made.runtime_limit == Span::spec_seconds(raw.runtime_limit_seconds)
    &&& made.transfer_endpoint@ == transfer_endpoint_of(raw, default_endpoint)
    &&& made.transfer_authentication == authentication_of(raw.transfer_authentication)
    &&& made.store.uri == raw.store_uri
    &&& made.transfer_limits == transfer_limits_of(raw.transfer_limits)
    &&& match (made.prestart, raw.prestart) {
        (Some(prestart), Some(configured)) => prestart_matches(prestart, configured),
        (None, None) => true,
        _ => false,
    }
}

/// The fault of the first backend that has one.
pub open spec fn first_nomad_fault(
    raw: Seq<RawNomadBackendConfig>,
    default_endpoint: Seq<char>,
) -> Option<Fault>
    decreases raw.len(),
{
    if raw.len() == 0 {
        None
    } else {
        match first_nomad_fault(raw.drop_last(), default_endpoint) {
            Some(refusal) => Some(refusal),
            None => nomad_backend_fault(raw.drop_last(), raw.last(), default_endpoint),
        }
    }
}

pub open spec fn nomad_fault(
    raw: Seq<RawNomadBackendConfig>,
    default_endpoint: Seq<char>,
) -> Option<Fault> {
    if raw.len() > MAXIMUM_NOMAD_BACKENDS {
        Some(fault::input_fault("Nomad backend count exceeds limit"))
    } else {
        first_nomad_fault(raw, default_endpoint)
    }
}

proof fn nomad_fault_stays(
    raw: Seq<RawNomadBackendConfig>,
    default_endpoint: Seq<char>,
    count: int,
)
    requires
        0 <= count <= raw.len(),
        first_nomad_fault(raw.take(count), default_endpoint) is Some,
    ensures
        first_nomad_fault(raw, default_endpoint) == first_nomad_fault(
            raw.take(count),
            default_endpoint,
        ),
    decreases raw.len(),
{
    if count == raw.len() {
        assert(raw.take(count) =~= raw);
    } else {
        assert(raw.drop_last().take(count) =~= raw.take(count));
        nomad_fault_stays(raw.drop_last(), default_endpoint, count);
    }
}

fn nomad_name_taken(backends: &Vec<NomadBackendConfig>, name: &str) -> (taken: bool)
    ensures
        taken == exists|i: int|
            0 <= i < backends@.len() && (#[trigger] backends@[i]).target.name@ == name@,
{
    let mut i: usize = 0;
    while i < backends.len()
        invariant
            i <= backends@.len(),
            forall|j: int| 0 <= j < i ==> (#[trigger] backends@[j]).target.name@ != name@,
        decreases backends@.len() - i,
    {
        if text::same_text(backends[i].target.name.as_str(), name) {
            return true;
        }
        i += 1;
    }
    false
}

/// Checks one backend by itself.
fn validate_nomad_backend(backend: RawNomadBackendConfig, default_transfer_endpoint: &str) -> (made:
    Result<NomadBackendConfig, Fault>)
    requires
        backend.well_formed(),
    ensures
        match made {
            Ok(config) => nomad_backend_fault(
                Seq::empty(),
                backend,
                default_transfer_endpoint@,
            ) is None && nomad_backend_matches(config, backend, default_transfer_endpoint@)
                && config.well_formed(),
            Err(refusal) => nomad_backend_fault(
                Seq::empty(),
                backend,
                default_transfer_endpoint@,
            ) == Some(refusal),
        },
{
    validate_backend_capacity(backend.maximum_concurrent_builds)?;
    if !valid_nomad_endpoint(backend.endpoint.as_str()) {
        return Err(invalid_input("Nomad endpoint is invalid"));
    }
    let namespace = validate_subject(backend.namespace, "Nomad namespace is invalid")?;
    let driver = validate_subject(backend.driver, "Nomad task driver is invalid")?;
    let job_name_scope = validate_subject(
        backend.job_name_scope,
        "Nomad job-name scope is invalid",
    )?;
    if backend.poll_interval_seconds == 0 || backend.poll_interval_seconds
        > MAXIMUM_NOMAD_POLL_INTERVAL_SECONDS || backend.runtime_limit_seconds == 0
        || backend.runtime_limit_seconds > MAXIMUM_NOMAD_RUNTIME_LIMIT_SECONDS
        || backend.poll_interval_seconds > backend.runtime_limit_seconds {
        return Err(invalid_input("Nomad timing bounds are invalid"));
    }
    let resources = validate_nomad_resources(backend.resources)?;
    let token_file = accept_option(backend.token_file)?;
    let ca_certificate_file = accept_option(backend.ca_certificate_file)?;
    let client_certificate_file = accept_option(backend.client_certificate_file)?;
    let client_key_file = accept_option(backend.client_key_file)?;
    if client_certificate_file.is_some() != client_key_file.is_some() {
        return Err(
            invalid_input("Nomad client certificate and key must be configured together"),
        );
    }
    let driver_config = validate_driver_config(&backend.driver_config)?;
    let transfer_endpoint = match backend.transfer_endpoint {
        Some(endpoint) => endpoint,
        None => default_transfer_endpoint.to_owned(),
    };
    if !valid_nomad_transfer_endpoint(transfer_endpoint.as_str()) {
        return Err(invalid_input("Nomad transfer endpoint is invalid"));
    }
    let transfer_authentication = validate_nomad_transfer_authentication(
        backend.transfer_authentication,
    )?;
    let store = validate_nomad_store(backend.store_uri)?;
    let transfer_limits = validate_nomad_transfer_limits(backend.transfer_limits)?;
    let prestart = match backend.prestart {
        Some(raw) => Some(validate_nomad_prestart(raw)?),
        None => None,
    };
    let target = BackendTarget::new(
        backend.name,
        BackendKind::Nomad,
        backend.system,
        backend.supported_features,
    )?;
    Ok(
        NomadBackendConfig {
            target,
            maximum_concurrent_builds: backend.maximum_concurrent_builds,
            endpoint: backend.endpoint,
            namespace,
            token_file,
            ca_certificate_file,
            client_certificate_file,
            client_key_file,
            driver,
            driver_config,
            resources,
            job_name_scope,
            poll_interval: Span::from_seconds(backend.poll_interval_seconds),
            runtime_limit: Span::from_seconds(backend.runtime_limit_seconds),
            transfer_endpoint,
            transfer_authentication,
            store,
            transfer_limits,
            prestart,
        },
    )
}

pub fn validate_nomad_backends(
    raw: Vec<RawNomadBackendConfig>,
    default_transfer_endpoint: &str,
) -> (made: Result<Vec<NomadBackendConfig>, Fault>)
    requires
        forall|i: int| 0 <= i < raw@.len() ==> (#[trigger] raw@[i]).well_formed(),
    ensures
        match made {
            Ok(backends) => {
                &&& nomad_fault(raw@, default_transfer_endpoint@) is None
                &&& backends@.len() == raw@.len()
                &&& forall|i: int| 0 <= i < raw@.len() ==> (#[trigger] backends@[i]).well_formed()
                &&& forall|i: int|
                    0 <= i < raw@.len() ==> nomad_backend_matches(
                        #[trigger] backends@[i],
                        raw@[i],
                        default_transfer_endpoint@,
                    )
            },
            Err(refusal) => nomad_fault(raw@, default_transfer_endpoint@) == Some(refusal),
        },
{
    if raw.len() > MAXIMUM_NOMAD_BACKENDS {
        return Err(invalid_input("Nomad backend count exceeds limit"));
    }
    let ghost whole = raw@;
    let ghost default = default_transfer_endpoint@;
    let mut backends: Vec<NomadBackendConfig> = Vec::new();
    assert(whole.take(0) =~= Seq::<RawNomadBackendConfig>::empty());
    for backend in iter: raw
        invariant
            iter.seq() == whole,
            default == default_transfer_endpoint@,
            whole.len() <= MAXIMUM_NOMAD_BACKENDS,
            backends@.len() == iter.index(),
            forall|i: int| 0 <= i < whole.len() ==> (#[trigger] whole[i]).well_formed(),
            forall|i: int| 0 <= i < iter.index() ==> (#[trigger] backends@[i]).well_formed(),
            first_nomad_fault(whole.take(iter.index()), default) is None,
            forall|i: int|
                0 <= i < iter.index() ==> nomad_backend_matches(
                    #[trigger] backends@[i],
                    whole[i],
                    default,
                ),
    {
        proof {
            let i = iter.index();
            let earlier = whole.take(i);
            assert(whole.take(i + 1).drop_last() =~= earlier);
            if nomad_backend_fault(earlier, whole[i], default) is Some {
                nomad_fault_stays(whole, default, i + 1);
            }
            assert(forall|j: int|
                0 <= j < i ==> (#[trigger] earlier[j]).name@ == backends@[j].target.name@);
            assert(forall|j: int|
                0 <= j < i ==> (#[trigger] backends@[j]).target.name@ == earlier[j].name@);
        }
        if nomad_name_taken(&backends, backend.name.as_str()) {
            return Err(invalid_input("Nomad backend name is ambiguous"));
        }
        let made = validate_nomad_backend(backend, default_transfer_endpoint)?;
        backends.push(made);
    }
    assert(whole.take(whole.len() as int) =~= whole);
    Ok(backends)
}

/// The names of all backends: the local one, then those over SSH, then those on Nomad.
pub open spec fn backend_names(
    local: Option<LocalBackendConfig>,
    static_ssh: Seq<StaticSshBackendConfig>,
    nomad: Seq<NomadBackendConfig>,
) -> Seq<Seq<char>> {
    (match local {
        Some(backend) => seq![backend.target.name@],
        None => seq![],
    }) + static_ssh.map_values(|backend: StaticSshBackendConfig| backend.target.name@)
        + nomad.map_values(|backend: NomadBackendConfig| backend.target.name@)
}

fn push_name(names: &mut Vec<String>, name: &str) -> (fresh: bool)
    requires
        old(names)@.map_values(|one: String| one@).no_duplicates(),
    ensures
        ({
            let before = old(names)@.map_values(|one: String| one@);
            let after = final(names)@.map_values(|one: String| one@);
            &&& fresh == !before.contains(name@)
            &&& fresh ==> after == before.push(name@) && after.no_duplicates()
        }),
{
    let ghost before = names@.map_values(|one: String| one@);
    let mut i: usize = 0;
    while i < names.len()
        invariant
            before == names@.map_values(|one: String| one@),
            i <= names@.len(),
            forall|j: int| 0 <= j < i ==> #[trigger] before[j] != name@,
        decreases names@.len() - i,
    {
        assert(before[i as int] == names@[i as int]@);
        if text::same_text(names[i].as_str(), name) {
            assert(before.contains(name@));
            return false;
        }
        i += 1;
    }
    names.push(name.to_owned());
    assert(names@.map_values(|one: String| one@) =~= before.push(name@));
    true
}

/// No two backends share a name, whatever their kinds.
pub fn validate_unique_backend_names(
    local: Option<&LocalBackendConfig>,
    static_ssh: &Vec<StaticSshBackendConfig>,
    nomad: &Vec<NomadBackendConfig>,
) -> (checked: Result<(), Fault>)
    ensures
        ({
            let names = backend_names(
                match local {
                    Some(backend) => Some(*backend),
                    None => None,
                },
                static_ssh@,
                nomad@,
            );
            &&& names.no_duplicates() ==> checked is Ok
            &&& !names.no_duplicates() ==> checked == Err::<(), Fault>(
                fault::input_fault("backend name is ambiguous"),
            )
        }),
{
    let ghost only = match local {
        Some(backend) => Some(*backend),
        None => None,
    };
    let ghost all = backend_names(only, static_ssh@, nomad@);
    let ghost first: int = if local is Some {
        1
    } else {
        0
    };
    let mut names: Vec<String> = Vec::new();
    assert(names@.map_values(|one: String| one@) =~= Seq::<Seq<char>>::empty());
    if let Some(backend) = local {
        let _ = push_name(&mut names, backend.target.name.as_str());
    }
    assert(names@.map_values(|one: String| one@) =~= all.take(first));
    let mut i: usize = 0;
    while i < static_ssh.len()
        invariant
            i <= static_ssh@.len(),
            only == (match local {
                Some(backend) => Some(*backend),
                None => None,
            }),
            all == backend_names(only, static_ssh@, nomad@),
            0 <= first <= 1,
            all.len() == first + static_ssh@.len() + nomad@.len(),
            forall|j: int|
                0 <= j < static_ssh@.len() ==> #[trigger] all[first + j] == static_ssh@[j].target.name@,
            names@.map_values(|one: String| one@) == all.take(first + i),
            all.take(first + i).no_duplicates(),
        decreases static_ssh@.len() - i,
    {
        proof {
            assert(all[first + i] == static_ssh@[i as int].target.name@);
            assert(all.take(first + i).push(all[first + i]) =~= all.take(first + i + 1));
        }
        if !push_name(&mut names, static_ssh[i].target.name.as_str()) {
            proof {
                repeated_name(all, first + i);
            }
            return Err(invalid_input("backend name is ambiguous"));
        }
        i += 1;
    }
    let ghost second: int = first + static_ssh@.len();
    let mut k: usize = 0;
    while k < nomad.len()
        invariant
            k <= nomad@.len(),
            only == (match local {
                Some(backend) => Some(*backend),
                None => None,
            }),
            all == backend_names(only, static_ssh@, nomad@),
            0 <= second,
            all.len() == second + nomad@.len(),
            forall|j: int|
                0 <= j < nomad@.len() ==> #[trigger] all[second + j] == nomad@[j].target.name@,
            names@.map_values(|one: String| one@) == all.take(second + k),
            all.take(second + k).no_duplicates(),
        decreases nomad@.len() - k,
    {
        proof {
            assert(all[second + k] == nomad@[k as int].target.name@);
            assert(all.take(second + k).push(all[second + k]) =~= all.take(second + k + 1));
        }
        if !push_name(&mut names, nomad[k].target.name.as_str()) {
            proof {
                repeated_name(all, second + k);
            }
            return Err(invalid_input("backend name is ambiguous"));
        }
        k += 1;
    }
    assert(all.take(all.len() as int) =~= all);
    Ok(())
}

/// A name that occurs before its place occurs twice.
proof fn repeated_name(names: Seq<Seq<char>>, place: int)
    requires
        0 <= place < names.len(),
        names.take(place).contains(names[place]),
    ensures
        !names.no_duplicates(),
{
    let earlier = choose|i: int|
        0 <= i < names.take(place).len() && names.take(place)[i] == names[place];
    assert(names[earlier] == names[place]);
}

} // verus!
