//! What can be relied on of settings that were taken.

use crate::service::config::model::{
    CredentialMapping, LocalBackendConfig, NomadBackendConfig, NomadCallbackConfig, NomadTransferAuthentication,
    NomadTransferLimits, SchedulingLimits, StaticSshBackendConfig,
};
use crate::service::config::validation::{
    self, Checked, RawCredentialMapping, RawNomadBackendConfig, RawNomadCallbackConfig,
    RawNomadPrestartConfig, RawNomadResources, RawNomadTransferAuthentication,
    RawNomadTransferLimits, RawStaticSshBackendConfig,
};
use crate::service::config::{self, Environment, RawServiceConfig, ServiceConfig};
use crate::text;
use vstd::prelude::*;

verus! {

/// A text can be shown on one line, and is neither empty nor longer than its limit.
pub open spec fn is_short_name(value: Seq<char>) -> bool {
    &&& value.len() > 0
    &&& text::byte_length(value) <= 256
    &&& forall|i: int| 0 <= i < value.len() ==> !text::is_control(#[trigger] value[i])
}

/// A text is one word: nothing in it is white space or a control character.
pub open spec fn is_word(value: Seq<char>) -> bool {
    forall|i: int|
        0 <= i < value.len() ==> !text::is_space(#[trigger] value[i]) && !text::is_control(value[i])
}

/// A text is a URL with something after its scheme.
pub open spec fn is_url(value: Seq<char>, scheme: Seq<char>) -> bool {
    &&& is_word(value)
    &&& text::byte_length(value) <= 2048
    &&& value.len() > scheme.len()
    &&& value.take(scheme.len() as int) == scheme
}

/// A backend can be named and matched with a derivation.
pub open spec fn can_be_matched(
    name: Seq<char>,
    system: Seq<char>,
    features: Seq<String>,
) -> bool {
    &&& is_short_name(name)
    &&& is_short_name(system)
    &&& forall|i: int| 0 <= i < features.len() ==> is_short_name((#[trigger] features[i])@)
}

/// A file that is configured can be used.
pub open spec fn is_usable(file: Option<Checked>) -> bool {
    file matches Some(checked) ==> checked.refusal is None
}

/// A backend over SSH can be used.
pub open spec fn is_usable_over_ssh(raw: RawStaticSshBackendConfig) -> bool {
    &&& 1 <= raw.maximum_concurrent_builds <= 65536
    &&& 0 < raw.destination@.len()
    &&& text::byte_length(raw.destination@) <= 512
    &&& raw.destination@[0] != '-'
    &&& is_word(raw.destination@)
    &&& raw.identity_file.refusal is None
    &&& raw.known_hosts_file.refusal is None
    &&& raw.ssh_program.refusal is None
    &&& can_be_matched(raw.name@, raw.system@, raw.supported_features@)
}

proof fn words_are_told(value: Seq<char>)
    ensures
        validation::is_subject(value) <==> is_short_name(value),
        validation::is_ssh_destination(value) <==> {
            &&& 0 < value.len()
            &&& text::byte_length(value) <= 512
            &&& value[0] != '-'
            &&& is_word(value)
        },
        validation::is_nomad_endpoint(value) <==> is_url(value, "http://"@) || is_url(
            value,
            "https://"@,
        ),
        validation::is_nomad_transfer_endpoint(value) <==> is_url(value, "ws://"@) || is_url(
            value,
            "wss://"@,
        ),
{
    prefix_is_told(value, "http://"@);
    prefix_is_told(value, "https://"@);
    prefix_is_told(value, "ws://"@);
    prefix_is_told(value, "wss://"@);
}

proof fn prefix_is_told(value: Seq<char>, prefix: Seq<char>)
    ensures
        value.len() > prefix.len() ==> (prefix.is_prefix_of(value) <==> value.take(
            prefix.len() as int,
        ) == prefix),
{
    if value.len() > prefix.len() {
        assert(value.take(prefix.len() as int) =~= value.subrange(0, prefix.len() as int));
    }
}

proof fn targets_are_told(name: Seq<char>, system: Seq<char>, features: Seq<String>)
    ensures
        validation::is_target(name, system, features) <==> can_be_matched(name, system, features),
{
    words_are_told(name);
    words_are_told(system);
    assert forall|i: int| 0 <= i < features.len() implies validation::is_subject(
        (#[trigger] features[i])@,
    ) == is_short_name(features[i]@) by {
        words_are_told(features[i]@);
    }
}

/// Backends over SSH are taken if and only if there are not too many of them, each can be used,
/// and no two of them share a name.
pub proof fn usable_ssh_backends_are_taken(raw: Seq<RawStaticSshBackendConfig>)
    ensures
        validation::ssh_fault(raw) is None <==> {
            &&& raw.len() <= 256
            &&& forall|i: int| 0 <= i < raw.len() ==> is_usable_over_ssh(#[trigger] raw[i])
            &&& forall|i: int, j: int|
                0 <= i < j < raw.len() ==> (#[trigger] raw[i]).name@ != (#[trigger] raw[j]).name@
        },
{
    ssh_backends_are_told(raw);
}

proof fn ssh_backends_are_told(raw: Seq<RawStaticSshBackendConfig>)
    ensures
        validation::first_ssh_fault(raw) is None <==> {
            &&& forall|i: int| 0 <= i < raw.len() ==> is_usable_over_ssh(#[trigger] raw[i])
            &&& forall|i: int, j: int|
                0 <= i < j < raw.len() ==> (#[trigger] raw[i]).name@ != (#[trigger] raw[j]).name@
        },
    decreases raw.len(),
{
    if raw.len() > 0 {
        let earlier = raw.drop_last();
        let last = raw.last();
        let count = raw.len() - 1;
        ssh_backends_are_told(earlier);
        words_are_told(last.destination@);
        targets_are_told(last.name@, last.system@, last.supported_features@);
        assert(raw[count] == last);
        assert forall|i: int| 0 <= i < count implies #[trigger] raw[i] == earlier[i] by {}
        assert forall|i: int| 0 <= i < count implies #[trigger] earlier[i] == raw[i] by {}
        if validation::first_ssh_fault(raw) is None {
            assert forall|i: int| 0 <= i < raw.len() implies is_usable_over_ssh(
                #[trigger] raw[i],
            ) by {
                if i < count {
                    assert(is_usable_over_ssh(earlier[i]));
                }
            }
            assert forall|i: int, j: int| 0 <= i < j < raw.len() implies (
            #[trigger] raw[i]).name@ != (#[trigger] raw[j]).name@ by {
                assert(raw[i] == earlier[i]);
                if j < count {
                    assert(raw[j] == earlier[j]);
                }
            }
        }
        if (forall|i: int| 0 <= i < raw.len() ==> is_usable_over_ssh(#[trigger] raw[i])) && (forall|
            i: int,
            j: int,
        |
            0 <= i < j < raw.len() ==> (#[trigger] raw[i]).name@ != (#[trigger] raw[j]).name@) {
            assert forall|i: int| 0 <= i < earlier.len() implies is_usable_over_ssh(
                #[trigger] earlier[i],
            ) by {
                assert(is_usable_over_ssh(raw[i]));
            }
            assert forall|i: int, j: int| 0 <= i < j < earlier.len() implies (
            #[trigger] earlier[i]).name@ != (#[trigger] earlier[j]).name@ by {
                assert(raw[i].name@ != raw[j].name@);
            }
            assert(is_usable_over_ssh(raw[count]));
            assert forall|i: int| 0 <= i < earlier.len() implies (#[trigger] earlier[i]).name@
                != last.name@ by {
                assert(raw[i].name@ != raw[count].name@);
            }
        }
    }
}

/// A name under which a credential can be recorded, if there is one.
pub open spec fn is_short_name_or_none(value: Option<String>) -> bool {
    value matches Some(name) ==> is_short_name(name@)
}

/// A credential is one that SSH vouches for, and stands for somebody.
pub open spec fn stands_for_somebody(mapping: (String, RawCredentialMapping)) -> bool {
    let id = mapping.0@;
    &&& text::byte_length(id) <= 1024
    &&& {
        ||| id.len() > 11 && id.take(11) == "ssh-pubkey:"@
        ||| id.len() > 9 && id.take(9) == "ssh-cert:"@
    }
    &&& is_short_name_or_none(mapping.1.audit_subject)
    &&& is_short_name_or_none(mapping.1.quota_subject)
    &&& mapping.1.audit_subject is Some || mapping.1.quota_subject is Some
}

proof fn credentials_are_told(mapping: (String, RawCredentialMapping))
    ensures
        validation::mapping_fault(mapping.0@, mapping.1) is None <==> stands_for_somebody(mapping),
{
    reveal_strlit("ssh-pubkey:");
    reveal_strlit("ssh-cert:");
    let id = mapping.0@;
    prefix_is_told(id, "ssh-pubkey:"@);
    prefix_is_told(id, "ssh-cert:"@);
    if id.len() == 11 && "ssh-pubkey:"@.is_prefix_of(id) {
        assert(id.subrange(0, 11) =~= id);
    }
    if id.len() == 9 && "ssh-cert:"@.is_prefix_of(id) {
        assert(id.subrange(0, 9) =~= id);
    }
    if mapping.1.audit_subject is Some {
        words_are_told(mapping.1.audit_subject->0@);
    }
    if mapping.1.quota_subject is Some {
        words_are_told(mapping.1.quota_subject->0@);
    }
    if id.len() == 11 && id.take(9) == "ssh-cert:"@ {
        assert(id.take(9)[4] == id[4] && id[4] == 'c');
        assert(id != "ssh-pubkey:"@);
    }
}

/// Mappings of credentials are taken if and only if there are not too many of them and each stands
/// for somebody.
pub proof fn mappings_that_stand_for_somebody_are_taken(raw: Seq<(String, RawCredentialMapping)>)
    ensures
        validation::mappings_fault(raw) is None <==> raw.len() <= 4096 && forall|i: int|
            0 <= i < raw.len() ==> stands_for_somebody(#[trigger] raw[i]),
{
    mappings_are_told(raw);
}

proof fn mappings_are_told(raw: Seq<(String, RawCredentialMapping)>)
    ensures
        validation::first_mapping_fault(raw) is None <==> forall|i: int|
            0 <= i < raw.len() ==> stands_for_somebody(#[trigger] raw[i]),
    decreases raw.len(),
{
    if raw.len() > 0 {
        let earlier = raw.drop_last();
        let count = raw.len() - 1;
        mappings_are_told(earlier);
        credentials_are_told(raw.last());
        assert(raw[count] == raw.last());
        assert forall|i: int| 0 <= i < count implies #[trigger] raw[i] == earlier[i] by {}
        if forall|i: int| 0 <= i < raw.len() ==> stands_for_somebody(#[trigger] raw[i]) {
            assert forall|i: int| 0 <= i < earlier.len() implies stands_for_somebody(
                #[trigger] earlier[i],
            ) by {
                assert(stands_for_somebody(raw[i]));
            }
            assert(stands_for_somebody(raw[count]));
        }
    }
}

/// The limits of a transfer fit each other: one archive fits all of them, a piece of a log fits its
/// queue, and a nonce is kept for as long as its proof can be presented.
pub open spec fn limits_fit_each_other(limits: NomadTransferLimits) -> bool {
    &&& limits.maximum_input_nar_bytes <= limits.maximum_total_input_bytes
    &&& limits.maximum_output_nar_bytes <= limits.maximum_total_output_bytes
    &&& limits.maximum_live_log_chunk_bytes <= limits.live_log_queue_bytes
    &&& limits.authentication_lifetime.seconds + limits.clock_skew.seconds
        <= limits.nonce_retention.seconds
}

/// The limits of a transfer leave room for something, and are bounded.
pub open spec fn limits_are_bounded(limits: NomadTransferLimits) -> bool {
    &&& 1 <= limits.maximum_manifest_paths <= 1_000_000
    &&& 1 <= limits.maximum_manifest_bytes <= i64::MAX
    &&& 1 <= limits.maximum_input_nar_bytes
    &&& limits.maximum_total_input_bytes <= i64::MAX
    &&& 1 <= limits.maximum_output_nar_bytes
    &&& limits.maximum_total_output_bytes <= i64::MAX
    &&& 1 <= limits.maximum_frame_metadata_bytes <= 64 * 1024 * 1024
    &&& 1 <= limits.stream_buffer_bytes <= 64 * 1024 * 1024
    &&& 1 <= limits.maximum_live_log_chunk_bytes
    &&& limits.live_log_queue_bytes <= 64 * 1024 * 1024
    &&& 1 <= limits.maximum_diagnostic_bytes <= 64 * 1024 * 1024
    &&& 1 <= limits.transfer_idle_timeout.seconds <= 86400
    &&& 1 <= limits.setup_timeout.seconds <= 86400
    &&& 1 <= limits.output_collection_timeout.seconds <= 86400
    &&& 1 <= limits.maximum_connection_lifetime.seconds <= 86400
    &&& 1 <= limits.reconnect_timeout.seconds <= 86400
    &&& 1 <= limits.authentication_lifetime.seconds <= 3600
    &&& limits.clock_skew.seconds <= 3600
    &&& limits.nonce_retention.seconds <= 86400
}

/// Limits of a transfer are taken if and only if what comes of them fits together and is bounded;
/// and what comes of them are the numbers that were configured, in whole seconds where they are
/// times.
pub proof fn fitting_limits_are_taken(raw: RawNomadTransferLimits)
    ensures
        validation::transfer_limits_valid(raw) <==> {
            let limits = validation::transfer_limits_of(raw);
            limits_fit_each_other(limits) && limits_are_bounded(limits)
        },
        ({
            let limits = validation::transfer_limits_of(raw);
            &&& limits.maximum_manifest_paths == raw.maximum_manifest_paths
            &&& limits.maximum_manifest_bytes == raw.maximum_manifest_bytes
            &&& limits.maximum_frame_metadata_bytes == raw.maximum_frame_metadata_bytes
            &&& limits.stream_buffer_bytes == raw.stream_buffer_bytes
            &&& limits.maximum_diagnostic_bytes == raw.maximum_diagnostic_bytes
            &&& limits.transfer_idle_timeout.seconds == raw.transfer_idle_timeout_seconds
            &&& limits.setup_timeout.seconds == raw.setup_timeout_seconds
            &&& limits.output_collection_timeout.seconds == raw.output_collection_timeout_seconds
            &&& limits.maximum_connection_lifetime.seconds
                == raw.maximum_connection_lifetime_seconds
            &&& limits.authentication_lifetime.seconds == raw.authentication_lifetime_seconds
            &&& limits.clock_skew.seconds == raw.clock_skew_seconds
            &&& limits.nonce_retention.seconds == raw.nonce_retention_seconds
            &&& limits.reconnect_timeout.seconds == raw.reconnect_timeout_seconds
        }),
{
}

/// Resources can be asked for.
pub open spec fn can_be_asked_for(raw: RawNomadResources) -> bool {
    &&& 1 <= raw.cpu_mhz <= 16_777_216
    &&& 1 <= raw.memory_mb <= 16_777_216
    &&& 1 <= raw.disk_mb <= 16_777_216
}

/// A way of authentication can be used.
pub open spec fn can_authenticate(raw: RawNomadTransferAuthentication) -> bool {
    match raw {
        RawNomadTransferAuthentication::WorkloadIdentity {
            issuer,
            jwks_url,
            audience,
            ca_certificate_file,
        } => {
            &&& is_url(issuer@, "http://"@) || is_url(issuer@, "https://"@)
            &&& is_url(jwks_url@, "http://"@) || is_url(jwks_url@, "https://"@)
            &&& is_short_name(audience@)
            &&& is_usable(ca_certificate_file)
        },
        RawNomadTransferAuthentication::Hmac { key_id, secret_file } => {
            &&& is_short_name(key_id@)
            &&& secret_file.refusal is None
        },
    }
}

/// What is done before a build can be done.
pub open spec fn can_be_prepared(raw: RawNomadPrestartConfig) -> bool {
    &&& 1 <= raw.timeout_seconds <= 86400
    &&& is_short_name(raw.driver@)
    &&& validation::driver_fault(raw.driver_config) is None
    &&& can_be_asked_for(raw.resources)
}

/// A backend on Nomad can be used.
pub open spec fn is_usable_on_nomad(raw: RawNomadBackendConfig, endpoint: Seq<char>) -> bool {
    &&& 1 <= raw.maximum_concurrent_builds <= 65536
    &&& is_url(raw.endpoint@, "http://"@) || is_url(raw.endpoint@, "https://"@)
    &&& is_short_name(raw.namespace@)
    &&& is_short_name(raw.driver@)
    &&& is_short_name(raw.job_name_scope@)
    &&& 1 <= raw.poll_interval_seconds <= 300
    &&& raw.poll_interval_seconds <= raw.runtime_limit_seconds <= 604800
    &&& can_be_asked_for(raw.resources)
    &&& is_usable(raw.token_file)
    &&& is_usable(raw.ca_certificate_file)
    &&& is_usable(raw.client_certificate_file)
    &&& is_usable(raw.client_key_file)
    &&& raw.client_certificate_file is Some <==> raw.client_key_file is Some
    &&& validation::driver_fault(raw.driver_config) is None
    &&& (raw.transfer_endpoint is None ==> is_url(endpoint, "ws://"@) || is_url(
        endpoint,
        "wss://"@,
    ))
    &&& (raw.transfer_endpoint matches Some(other) ==> is_url(other@, "ws://"@) || is_url(
        other@,
        "wss://"@,
    ))
    &&& can_authenticate(raw.transfer_authentication)
    &&& validation::is_store_uri(raw.store_uri@)
    &&& limits_fit_each_other(validation::transfer_limits_of(raw.transfer_limits))
    &&& limits_are_bounded(validation::transfer_limits_of(raw.transfer_limits))
    &&& (raw.prestart matches Some(prestart) ==> can_be_prepared(prestart))
    &&& can_be_matched(raw.name@, raw.system@, raw.supported_features@)
}

proof fn authentication_is_told(raw: RawNomadTransferAuthentication)
    ensures
        validation::authentication_fault(raw) is None <==> can_authenticate(raw),
{
    match raw {
        RawNomadTransferAuthentication::WorkloadIdentity { issuer, jwks_url, audience, .. } => {
            words_are_told(issuer@);
            words_are_told(jwks_url@);
            words_are_told(audience@);
        },
        RawNomadTransferAuthentication::Hmac { key_id, .. } => {
            words_are_told(key_id@);
        },
    }
}

proof fn nomad_backend_is_told(
    earlier: Seq<RawNomadBackendConfig>,
    raw: RawNomadBackendConfig,
    endpoint: Seq<char>,
)
    ensures
        validation::nomad_backend_fault(earlier, raw, endpoint) is None <==> is_usable_on_nomad(
            raw,
            endpoint,
        ) && forall|i: int| 0 <= i < earlier.len() ==> (#[trigger] earlier[i]).name@ != raw.name@,
{
    words_are_told(raw.endpoint@);
    words_are_told(raw.namespace@);
    words_are_told(raw.driver@);
    words_are_told(raw.job_name_scope@);
    words_are_told(validation::transfer_endpoint_of(raw, endpoint));
    authentication_is_told(raw.transfer_authentication);
    fitting_limits_are_taken(raw.transfer_limits);
    targets_are_told(raw.name@, raw.system@, raw.supported_features@);
    if raw.prestart is Some {
        words_are_told(raw.prestart->0.driver@);
    }
}

/// Backends on Nomad are taken if and only if there are not too many of them, each can be used,
/// and no two of them share a name.
pub proof fn usable_nomad_backends_are_taken(
    raw: Seq<RawNomadBackendConfig>,
    endpoint: Seq<char>,
)
    ensures
        validation::nomad_fault(raw, endpoint) is None <==> {
            &&& raw.len() <= 256
            &&& forall|i: int|
                0 <= i < raw.len() ==> is_usable_on_nomad(#[trigger] raw[i], endpoint)
            &&& forall|i: int, j: int|
                0 <= i < j < raw.len() ==> (#[trigger] raw[i]).name@ != (#[trigger] raw[j]).name@
        },
{
    nomad_backends_are_told(raw, endpoint);
}

proof fn nomad_backends_are_told(raw: Seq<RawNomadBackendConfig>, endpoint: Seq<char>)
    ensures
        validation::first_nomad_fault(raw, endpoint) is None <==> {
            &&& forall|i: int|
                0 <= i < raw.len() ==> is_usable_on_nomad(#[trigger] raw[i], endpoint)
            &&& forall|i: int, j: int|
                0 <= i < j < raw.len() ==> (#[trigger] raw[i]).name@ != (#[trigger] raw[j]).name@
        },
    decreases raw.len(),
{
    if raw.len() > 0 {
        let earlier = raw.drop_last();
        let last = raw.last();
        let count = raw.len() - 1;
        nomad_backends_are_told(earlier, endpoint);
        nomad_backend_is_told(earlier, last, endpoint);
        assert(raw[count] == last);
        if validation::first_nomad_fault(raw, endpoint) is None {
            assert forall|i: int| 0 <= i < raw.len() implies is_usable_on_nomad(
                #[trigger] raw[i],
                endpoint,
            ) by {
                if i < count {
                    assert(is_usable_on_nomad(earlier[i], endpoint));
                }
            }
            assert forall|i: int, j: int| 0 <= i < j < raw.len() implies (
            #[trigger] raw[i]).name@ != (#[trigger] raw[j]).name@ by {
                assert(raw[i] == earlier[i]);
                if j < count {
                    assert(raw[j] == earlier[j]);
                }
            }
        }
        if (forall|i: int| 0 <= i < raw.len() ==> is_usable_on_nomad(#[trigger] raw[i], endpoint))
            && (forall|i: int, j: int|
            0 <= i < j < raw.len() ==> (#[trigger] raw[i]).name@ != (#[trigger] raw[j]).name@) {
            assert forall|i: int| 0 <= i < earlier.len() implies is_usable_on_nomad(
                #[trigger] earlier[i],
                endpoint,
            ) by {
                assert(is_usable_on_nomad(raw[i], endpoint));
            }
            assert forall|i: int, j: int| 0 <= i < j < earlier.len() implies (
            #[trigger] earlier[i]).name@ != (#[trigger] earlier[j]).name@ by {
                assert(raw[i].name@ != raw[j].name@);
            }
            assert(is_usable_on_nomad(raw[count], endpoint));
            assert forall|i: int| 0 <= i < earlier.len() implies (#[trigger] earlier[i]).name@
                != last.name@ by {
                assert(raw[i].name@ != raw[count].name@);
            }
        }
    }
}

/// A backend on Nomad that comes of what is configured keeps what it was configured with, and
/// presents the proof that it was configured to present.
pub proof fn nomad_backend_is_as_configured(
    made: NomadBackendConfig,
    raw: RawNomadBackendConfig,
    endpoint: Seq<char>,
)
    requires
        validation::nomad_backend_matches(made, raw, endpoint),
    ensures
        made.target.name@ == raw.name@,
        made.target.system@ == raw.system@,
        made.target.features@ == raw.supported_features@,
        made.maximum_concurrent_builds == raw.maximum_concurrent_builds,
        made.endpoint@ == raw.endpoint@,
        made.namespace@ == raw.namespace@,
        made.job_name_scope@ == raw.job_name_scope@,
        made.driver@ == raw.driver@,
        made.store.uri@ == raw.store_uri@,
        made.resources.cpu_mhz == raw.resources.cpu_mhz,
        made.resources.memory_mb == raw.resources.memory_mb,
        made.resources.disk_mb == raw.resources.disk_mb,
        made.poll_interval.seconds == raw.poll_interval_seconds,
        made.runtime_limit.seconds == raw.runtime_limit_seconds,
        made.token_file is Some <==> raw.token_file is Some,
        raw.token_file is Some ==> made.token_file == Some(raw.token_file->0.value),
        made.ca_certificate_file is Some <==> raw.ca_certificate_file is Some,
        raw.ca_certificate_file is Some ==> made.ca_certificate_file == Some(
            raw.ca_certificate_file->0.value,
        ),
        made.client_certificate_file is Some <==> raw.client_certificate_file is Some,
        raw.client_certificate_file is Some ==> made.client_certificate_file == Some(
            raw.client_certificate_file->0.value,
        ),
        made.client_key_file is Some <==> raw.client_key_file is Some,
        raw.client_key_file is Some ==> made.client_key_file == Some(raw.client_key_file->0.value),
        raw.transfer_endpoint is None ==> made.transfer_endpoint@ == endpoint,
        raw.transfer_endpoint is Some ==> made.transfer_endpoint@ == raw.transfer_endpoint->0@,
        match (raw.transfer_authentication, made.transfer_authentication) {
            (
                RawNomadTransferAuthentication::Hmac { key_id, secret_file },
                NomadTransferAuthentication::Hmac { key_id: kept, secret_file: file },
            ) => kept@ == key_id@ && file == secret_file.value,
            (
                RawNomadTransferAuthentication::WorkloadIdentity { issuer, jwks_url, audience, .. },
                NomadTransferAuthentication::WorkloadIdentity {
                    issuer: kept,
                    jwks_url: keys,
                    audience: listener,
                    ..
                },
            ) => kept@ == issuer@ && keys@ == jwks_url@ && listener@ == audience@,
            _ => false,
        },
        made.prestart is Some <==> raw.prestart is Some,
        made.prestart is Some ==> {
            &&& made.prestart->0.driver@ == raw.prestart->0.driver@
            &&& made.prestart->0.timeout.seconds == raw.prestart->0.timeout_seconds
            &&& made.prestart->0.resources.cpu_mhz == raw.prestart->0.resources.cpu_mhz
            &&& made.prestart->0.resources.memory_mb == raw.prestart->0.resources.memory_mb
            &&& made.prestart->0.resources.disk_mb == raw.prestart->0.resources.disk_mb
        },
{
}

/// A setting is the one that was given, or else its default.
pub open spec fn is_given_or<T>(value: T, given: Option<T>, default: T) -> bool {
    &&& given is Some ==> value == given->0
    &&& given is None ==> value == default
}

/// The settings of the callback service are those given, and defaults for the others, and they are
/// taken only if they leave room for something and are bounded.
pub proof fn callback_settings_are_bounded(made: NomadCallbackConfig, raw: RawNomadCallbackConfig)
    requires
        validation::callback_matches(made, raw),
    ensures
        is_given_or(made.maximum_connections, raw.maximum_connections, 64),
        is_given_or(made.maximum_header_bytes, raw.maximum_header_bytes, 16_384),
        is_given_or(made.maximum_body_bytes, raw.maximum_body_bytes, 65_536),
        is_given_or(made.maximum_jwks_bytes, raw.maximum_jwks_bytes, 1_048_576),
        is_given_or(made.maximum_retained_nonces, raw.maximum_retained_nonces, 65536),
        is_given_or(
            made.authentication_request_timeout.seconds,
            raw.authentication_request_timeout_seconds,
            10,
        ),
        is_given_or(
            made.shutdown_drain_timeout.seconds,
            raw.shutdown_drain_timeout_seconds,
            30,
        ),
        raw.public_url is Some ==> made.public_url@ == raw.public_url->0@,
        raw.public_url is None ==> made.public_url@ == "ws://127.0.0.1:7443/callback"@,
        raw.bind matches Ok(Some(address)) ==> made.bind == address,
        validation::callback_fault(raw) is None <==> {
            &&& raw.bind is Ok
            &&& is_url(made.public_url@, "ws://"@) || is_url(made.public_url@, "wss://"@)
            &&& 1 <= made.maximum_connections <= 65536
            &&& 1 <= made.maximum_header_bytes <= 1024 * 1024
            &&& 1 <= made.maximum_body_bytes <= 64 * 1024 * 1024
            &&& 1 <= made.maximum_jwks_bytes <= 64 * 1024 * 1024
            &&& 1 <= made.maximum_retained_nonces <= 64 * 1024 * 1024
            &&& 1 <= made.authentication_request_timeout.seconds <= 86400
            &&& 1 <= made.shutdown_drain_timeout.seconds <= 86400
        },
{
    words_are_told(made.public_url@);
}

/// Among backends of all kinds that are taken together, each is found under its name alone.
pub proof fn names_are_not_shared(
    local: Option<LocalBackendConfig>,
    static_ssh: Seq<StaticSshBackendConfig>,
    nomad: Seq<NomadBackendConfig>,
)
    ensures
        validation::backend_names(local, static_ssh, nomad).no_duplicates() ==> {
            &&& forall|i: int, j: int|
                0 <= i < j < static_ssh.len() ==> (#[trigger] static_ssh[i]).target.name@ != (
                #[trigger] static_ssh[j]).target.name@
            &&& forall|i: int, j: int|
                0 <= i < j < nomad.len() ==> (#[trigger] nomad[i]).target.name@ != (
                #[trigger] nomad[j]).target.name@
            &&& forall|i: int, j: int|
                0 <= i < static_ssh.len() && 0 <= j < nomad.len() ==> (
                #[trigger] static_ssh[i]).target.name@ != (#[trigger] nomad[j]).target.name@
            &&& forall|i: int|
                local is Some && 0 <= i < static_ssh.len() ==> (
                #[trigger] static_ssh[i]).target.name@ != local->0.target.name@
            &&& forall|i: int|
                local is Some && 0 <= i < nomad.len() ==> (#[trigger] nomad[i]).target.name@
                    != local->0.target.name@
        },
{
    let names = validation::backend_names(local, static_ssh, nomad);
    let first: int = if local is Some {
        1
    } else {
        0
    };
    assert forall|i: int| 0 <= i < static_ssh.len() implies (
    #[trigger] static_ssh[i]).target.name@ == names[first + i] by {}
    assert forall|i: int| 0 <= i < nomad.len() implies (#[trigger] nomad[i]).target.name@
        == names[first + static_ssh.len() + i] by {}
    assert(local is Some ==> names[0] == local->0.target.name@);
}

/// What the environment sets is used whatever the file says.
pub proof fn environment_outranks_the_file(
    raw: RawServiceConfig,
    other: RawServiceConfig,
    environment: Environment,
)
    ensures
        environment.output_retention_seconds matches Ok(Some(_)) ==> config::retention_seconds(
            raw,
            environment,
        ) == config::retention_seconds(other, environment),
        environment.maximum_retained_input_bytes matches Ok(Some(_)) ==> config::retained_bytes(
            raw,
            environment,
        ) == config::retained_bytes(other, environment),
        environment.running_disconnect_policy matches Ok(Some(_)) ==> config::disconnect_policy(
            raw,
            environment,
        ) == config::disconnect_policy(other, environment),
        environment.database_url matches Ok(Some(_)) ==> config::database(raw, environment)
            == config::database(other, environment),
        environment.ipc_socket matches Ok(Some(_)) ==> config::socket(raw, environment)
            == config::socket(other, environment),
        environment.maximum_sessions matches Ok(Some(_)) ==> config::session_limit(
            raw,
            environment,
        ) == config::session_limit(other, environment),
        environment.credentials matches Ok(Some(_)) ==> config::credentials(raw, environment)
            == config::credentials(other, environment),
{
}

/// Settings that were taken can be relied on: the ownership is renewed at least three times before
/// it lapses, the socket and the publishing command have absolute paths, what the environment set
/// is what is used, and every limit is bounded.
pub proof fn taken_settings_can_be_relied_on(
    made: ServiceConfig,
    raw: RawServiceConfig,
    environment: Environment,
)
    requires
        config::build_fault(raw, environment) is None,
        config::config_matches(made, raw, environment),
    ensures
        1 <= made.ownership_renewal_interval.seconds,
        3 * made.ownership_renewal_interval.seconds <= made.ownership_lease_duration.seconds,
        made.ownership_lease_duration.seconds <= 86400,
        is_given_or(made.ownership_renewal_interval.seconds, raw.ownership_renewal_seconds, 5),
        is_given_or(made.ownership_lease_duration.seconds, raw.ownership_lease_seconds, 20),
        1 <= made.backend_permit_wait.seconds <= 3600,
        is_given_or(made.backend_permit_wait.seconds, raw.permit_wait_seconds, 30),
        made.ipc_socket matches Some(path) ==> path@.len() > 0 && path@[0] == '/',
        environment.ipc_socket matches Ok(Some(path)) ==> made.ipc_socket == Some(path),
        environment.ipc_socket == Ok::<Option<String>, crate::fault::Fault>(None)
            ==> made.ipc_socket == raw.ipc_socket,
        environment.database_url matches Ok(Some(url)) ==> made.database_url == Some(url)
            && url@.len() > 0,
        environment.database_url is Ok && environment.database_url->Ok_0 is None ==> (
        made.database_url is Some <==> raw.database_url is Some),
        made.maximum_ipc_sessions <= 65536,
        environment.maximum_sessions matches Ok(Some(digits)) ==> 1 <= made.maximum_ipc_sessions
            && text::unsigned_number(digits@, usize::MAX as nat) == Some(
            made.maximum_ipc_sessions as nat,
        ),
        environment.maximum_sessions is Ok && environment.maximum_sessions->Ok_0 is None
            ==> is_given_or(made.maximum_ipc_sessions, raw.maximum_sessions, 256),
        environment.output_retention_seconds matches Ok(Some(digits)) ==> 60
            <= made.output_retention.seconds <= 86400 && text::unsigned_number(
            digits@,
            u64::MAX as nat,
        ) == Some(made.output_retention.seconds as nat),
        environment.output_retention_seconds is Ok && environment.output_retention_seconds->Ok_0
            is None ==> is_given_or(
            made.output_retention.seconds,
            raw.output_retention_seconds,
            environment.default_output_retention_seconds,
        ),
        made.maximum_retained_input_bytes <= i64::MAX,
        environment.maximum_retained_input_bytes matches Ok(Some(digits)) ==> 1
            <= made.maximum_retained_input_bytes && text::unsigned_number(
            digits@,
            u64::MAX as nat,
        ) == Some(made.maximum_retained_input_bytes as nat),
        made.cache_publisher is Some <==> raw.cache_publication is Some,
        made.cache_publisher matches Some(publisher) ==> {
            &&& publisher.executable@.len() > 0 && publisher.executable@[0] == '/'
            &&& publisher.executable@ == raw.cache_publication->0.executable@
            &&& publisher.arguments@ == raw.cache_publication->0.arguments@
            &&& publisher.timeout.seconds > 0
            &&& is_given_or(
                publisher.timeout.seconds,
                raw.cache_publication->0.timeout_seconds,
                300,
            )
            &&& publisher.maximum_input_bytes > 0
            &&& is_given_or(
                publisher.maximum_input_bytes,
                raw.cache_publication->0.maximum_input_bytes,
                65_536,
            )
        },
        1 <= made.default_scheduling_limits.queued() <= 65536,
        1 <= made.default_scheduling_limits.active() <= 65536,
        raw.default_scheduling matches Some(limits) ==> made.default_scheduling_limits.queued()
            == limits.maximum_queued_builds && made.default_scheduling_limits.active()
            == limits.maximum_active_builds,
        raw.default_scheduling is None ==> made.default_scheduling_limits.queued() == 65536
            && made.default_scheduling_limits.active() == 65536,
{
}

/// The subject of a credential is that of its first mapping, and a credential without a mapping has
/// none.
pub proof fn credential_is_found(mappings: Seq<(String, CredentialMapping)>, id: Seq<char>)
    ensures
        match config::mapping_place(mappings, id) {
            Some(place) => 0 <= place < mappings.len() && mappings[place].0@ == id && forall|i: int|
                0 <= i < place ==> (#[trigger] mappings[i]).0@ != id,
            None => forall|i: int| 0 <= i < mappings.len() ==> (#[trigger] mappings[i]).0@ != id,
        },
    decreases mappings.len(),
{
    if mappings.len() > 0 {
        let others = mappings.drop_first();
        credential_is_found(others, id);
        assert forall|i: int| 0 < i < mappings.len() implies #[trigger] mappings[i] == others[i
            - 1] by {}
    }
}

/// The limits of a subject are the first that are set for it, and a subject without any has none.
pub proof fn limits_are_found(limits: Seq<(String, SchedulingLimits)>, subject: Seq<char>)
    ensures
        match config::limits_place(limits, subject) {
            Some(place) => 0 <= place < limits.len() && limits[place].0@ == subject && forall|
                i: int,
            |
                0 <= i < place ==> (#[trigger] limits[i]).0@ != subject,
            None => forall|i: int| 0 <= i < limits.len() ==> (#[trigger] limits[i]).0@ != subject,
        },
    decreases limits.len(),
{
    if limits.len() > 0 {
        let others = limits.drop_first();
        limits_are_found(others, subject);
        assert forall|i: int| 0 < i < limits.len() implies #[trigger] limits[i] == others[i - 1] by {
        }
    }
}

/// The targets are those of all backends, each in its place: the local one, those over SSH, and
/// those on Nomad.
pub proof fn every_backend_is_a_target(config: ServiceConfig)
    ensures
        ({
            let targets = config::targets_of(config);
            let first: int = if config.local_backend is Some {
                1
            } else {
                0
            };
            let ssh = config.static_ssh_backends@;
            let nomad = config.nomad_backends@;
            &&& targets.len() == first + ssh.len() + nomad.len()
            &&& config.local_backend matches Some(local) ==> targets[0] == local.target
            &&& forall|i: int| 0 <= i < ssh.len() ==> targets[first + i] == (#[trigger] ssh[i]).target
            &&& forall|i: int|
                0 <= i < nomad.len() ==> targets[first + ssh.len() + i] == (
                #[trigger] nomad[i]).target
        }),
{
}

/// A reload changes none of the settings that are fixed while the service runs.
pub proof fn reload_keeps_fixed_settings(current: ServiceConfig, next: ServiceConfig)
    requires
        config::reload_fault(current, next) is None,
    ensures
        next.running_disconnect_policy@ == current.running_disconnect_policy@,
        next.output_retention == current.output_retention,
        next.maximum_retained_input_bytes == current.maximum_retained_input_bytes,
        next.cache_publisher is Some <==> current.cache_publisher is Some,
        next.cache_publisher matches Some(publisher) ==> publisher.timeout
            == current.cache_publisher->0.timeout && publisher.maximum_input_bytes
            == current.cache_publisher->0.maximum_input_bytes,
        next.database_url is Some <==> current.database_url is Some,
        next.database_url matches Some(url) ==> url@ == current.database_url->0@,
        next.ownership_renewal_interval == current.ownership_renewal_interval,
        next.ownership_lease_duration == current.ownership_lease_duration,
        next.ipc_socket is Some <==> current.ipc_socket is Some,
        next.maximum_ipc_sessions == current.maximum_ipc_sessions,
        next.nomad_callback.bind == current.nomad_callback.bind,
        next.nomad_callback.public_url@ == current.nomad_callback.public_url@,
        next.nomad_callback.maximum_connections == current.nomad_callback.maximum_connections,
        next.credential_mappings@.len() == current.credential_mappings@.len(),
        forall|i: int|
            0 <= i < next.credential_mappings@.len() ==> (
            #[trigger] next.credential_mappings@[i]).0@ == current.credential_mappings@[i].0@,
        next.default_scheduling_limits == current.default_scheduling_limits,
        next.subject_scheduling_limits@.len() == current.subject_scheduling_limits@.len(),
        next.backend_permit_wait == current.backend_permit_wait,
        next.local_backend is Some <==> current.local_backend is Some,
        next.local_backend matches Some(local) ==> local.maximum_concurrent_builds
            == current.local_backend->0.maximum_concurrent_builds && local.target.name@
            == current.local_backend->0.target.name@,
        next.nomad_backends@.len() == current.nomad_backends@.len(),
{
}

} // verus!
