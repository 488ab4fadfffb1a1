//! The frontend: who asks, and the envelope that says so.

use crate::persistence::database::copy_option;
use crate::runtime::arguments::session_id;
use crate::service::config::model::CredentialMapping;
use crate::service::ipc::{IpcEnvelope, RequesterMetadata, IPC_VERSION};
use crate::text;
use vstd::prelude::*;

verus! {

/// Who asks, by a public key and the subjects that it is mapped to.
#[derive(Debug)]
pub struct PublicKeyIdentity {
    pub fingerprint: String,
    pub audit_subject: Option<String>,
    pub quota_subject: Option<String>,
    pub source_address: Option<String>,
}

/// The credential of a public key.
pub fn public_key_credential(fingerprint: &str) -> (credential_id: String)
    ensures
        credential_id@ == "ssh-pubkey:"@ + fingerprint@,
{
    let mut credential_id = String::new();
    credential_id.append("ssh-pubkey:");
    credential_id.append(fingerprint);
    assert(credential_id@ =~= "ssh-pubkey:"@ + fingerprint@);
    credential_id
}

/// Who asks with a public key: its mapping names the subjects, as far as there is one.
pub fn frontend_identity(fingerprint: String, mapping: Option<&CredentialMapping>) -> (identity:
    PublicKeyIdentity)
    ensures
        identity == identity_of(fingerprint, mapping),
{
    match mapping {
        Some(mapping) => PublicKeyIdentity {
            fingerprint,
            audit_subject: copy_option(&mapping.audit_subject),
            quota_subject: copy_option(&mapping.quota_subject),
            source_address: None,
        },
        None => PublicKeyIdentity {
            fingerprint,
            audit_subject: None,
            quota_subject: None,
            source_address: None,
        },
    }
}

/// The envelope that a frontend opens its session with.
pub fn frontend_envelope(requester: RequesterMetadata, process: u32, nanoseconds: u128) -> (
envelope: IpcEnvelope)
    ensures
        envelope.version == IPC_VERSION,
        envelope.requester == requester,
        envelope.session_id@ == text::decimal_text(process as nat) + "-"@ + text::decimal_text(
            nanoseconds as nat,
        ),
        envelope.error is None,
{
    IpcEnvelope {
        version: IPC_VERSION,
        requester,
        session_id: session_id(process, nanoseconds),
        error: None,
    }
}

/// Who asks with a public key, as far as its mapping says.
pub open spec fn identity_of(
    fingerprint: String,
    mapping: Option<&CredentialMapping>,
) -> PublicKeyIdentity {
    PublicKeyIdentity {
        fingerprint,
        audit_subject: match mapping {
            Some(mapping) => mapping.audit_subject,
            None => None,
        },
        quota_subject: match mapping {
            Some(mapping) => mapping.quota_subject,
            None => None,
        },
        source_address: None,
    }
}

/// Who asks is known by the fingerprint, and has the subjects of its mapping and no others.
pub proof fn identity_is_that_of_the_key(
    fingerprint: String,
    mapping: Option<&CredentialMapping>,
)
    ensures
        identity_of(fingerprint, mapping).fingerprint@ == fingerprint@,
        identity_of(fingerprint, mapping).source_address is None,
        mapping is None ==> identity_of(fingerprint, mapping).audit_subject is None && identity_of(
            fingerprint,
            mapping,
        ).quota_subject is None,
        mapping matches Some(mapped) ==> identity_of(fingerprint, mapping).audit_subject
            == mapped.audit_subject && identity_of(fingerprint, mapping).quota_subject
            == mapped.quota_subject,
{
}

} // verus!
