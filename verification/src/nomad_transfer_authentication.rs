//! Verification of the HMAC proof that a Nomad worker authenticates with: a capability signed
//! by the gateway, a request signed with the key inside it, and a nonce that is used once.

use crate::crypto;
use crate::fault::{self, invalid_data, Fault};
use crate::text;
use crate::time::Span;
use vstd::prelude::*;
use vstd::utf8::*;

verus! {

pub const MAXIMUM_CAPABILITY_BYTES: usize = 4096;

pub const MAXIMUM_IDENTITY_BYTES: usize = 256;

/// How a worker proves who it is.
#[derive(Clone, Debug)]
pub enum AuthenticationProof {
    Hmac {
        capability: String,
        expiry: u64,
        nonce: String,
        body_digest: String,
        signature: String,
    },
    WorkloadIdentity { token: String },
}

/// Who a worker says it is, and what it shows for it.
#[derive(Clone, Debug)]
pub struct Authentication {
    pub backend: String,
    pub namespace: String,
    pub job_id: String,
    pub allocation_id: String,
    pub task: String,
    pub shared_build_digest: String,
    pub proof: AuthenticationProof,
}

/// What the gateway expects of the worker of one execution.
#[derive(Clone, Debug)]
pub struct HmacVerificationPolicy {
    pub key_id: String,
    pub secret: Vec<u8>,
    pub backend: String,
    pub namespace: String,
    pub job_id: String,
    pub shared_build_digest: String,
    pub task: String,
    pub clock_skew: Span,
    pub nonce_retention: Span,
    pub maximum_retained_nonces: usize,
}

/// What a capability grants, read from its signed part.
#[derive(Clone, Debug)]
pub struct CapabilityClaims {
    pub version: u16,
    pub key_id: String,
    pub backend: String,
    pub namespace: String,
    pub job_id: String,
    pub shared_build_digest: String,
    pub issued_at: u64,
    pub expires_at: u64,
    pub nonce: String,
    pub request_key: String,
}

/// A nonce that was used, and the second from which it is forgotten.
#[derive(Clone, Debug)]
pub struct RetainedNonce {
    pub nonce: String,
    pub retained_until: u64,
}

/// A verified request: its nonce, and the second from which the nonce may be forgotten.
#[derive(Clone, Debug)]
pub struct VerifiedHmacRequest {
    nonce: String,
    expires_at: u64,
}

impl VerifiedHmacRequest {
    pub closed spec fn spec_nonce(&self) -> Seq<char> {
        self.nonce@
    }

    pub closed spec fn spec_expires_at(&self) -> u64 {
        self.expires_at
    }

    pub fn nonce(&self) -> (nonce: &str)
        ensures
            nonce@ == self.spec_nonce(),
    {
        self.nonce.as_str()
    }

    /// The expiry in seconds since the Unix epoch.
    pub fn expires_at(&self) -> (expires_at: u64)
        ensures
            expires_at == self.spec_expires_at(),
    {
        self.expires_at
    }
}

/// A text that can name a thing: not empty, bounded, and without control characters.
pub open spec fn is_identity(value: Seq<char>) -> bool {
    &&& value.len() > 0
    &&& text::byte_length(value) <= MAXIMUM_IDENTITY_BYTES
    &&& !text::has_control(value)
}

fn validate_identity(value: &str) -> (checked: Result<(), Fault>)
    ensures
        is_identity(value@) ==> checked is Ok,
        !is_identity(value@) ==> checked == Err::<(), Fault>(
            fault::data_fault("Nomad callback identity is invalid"),
        ),
{
    if value.is_empty() || text::length_in_bytes(value) > MAXIMUM_IDENTITY_BYTES
        || text::contains_control(value) {
        return Err(invalid_data("Nomad callback identity is invalid"));
    }
    Ok(())
}

/// The policy can be used to verify requests.
pub open spec fn usable(policy: HmacVerificationPolicy) -> bool {
    &&& policy.secret@.len() > 0
    &&& policy.maximum_retained_nonces > 0
    &&& !(policy.nonce_retention.seconds == 0 && policy.nonce_retention.nanoseconds == 0)
}

/// Every name in the policy is an identity.
pub open spec fn names_are_identities(policy: HmacVerificationPolicy) -> bool {
    &&& is_identity(policy.key_id@)
    &&& is_identity(policy.backend@)
    &&& is_identity(policy.namespace@)
    &&& is_identity(policy.job_id@)
    &&& is_identity(policy.shared_build_digest@)
    &&& is_identity(policy.task@)
}

/// Why who the worker says it is does not match the policy.
pub open spec fn identity_fault(
    authentication: Authentication,
    policy: HmacVerificationPolicy,
) -> Option<Fault> {
    if !(is_identity(authentication.backend@) && is_identity(authentication.namespace@)
        && is_identity(authentication.job_id@) && is_identity(authentication.allocation_id@)
        && is_identity(authentication.task@) && is_identity(authentication.shared_build_digest@)) {
        Some(fault::data_fault("Nomad callback identity is invalid"))
    } else if authentication.backend@ != policy.backend@ || authentication.namespace@
        != policy.namespace@ || authentication.job_id@ != policy.job_id@ || authentication.task@
        != policy.task@ || authentication.shared_build_digest@ != policy.shared_build_digest@ {
        Some(fault::data_fault("Nomad callback identity does not match expected execution"))
    } else {
        None
    }
}

fn validate_authentication_identity(
    authentication: &Authentication,
    policy: &HmacVerificationPolicy,
) -> (checked: Result<(), Fault>)
    ensures
        match identity_fault(*authentication, *policy) {
            Some(refusal) => checked == Err::<(), Fault>(refusal),
            None => checked is Ok,
        },
{
    validate_identity(authentication.backend.as_str())?;
    validate_identity(authentication.namespace.as_str())?;
    validate_identity(authentication.job_id.as_str())?;
    validate_identity(authentication.allocation_id.as_str())?;
    validate_identity(authentication.task.as_str())?;
    validate_identity(authentication.shared_build_digest.as_str())?;
    if authentication.backend != policy.backend || authentication.namespace != policy.namespace
        || authentication.job_id != policy.job_id || authentication.task != policy.task
        || authentication.shared_build_digest != policy.shared_build_digest {
        return Err(invalid_data("Nomad callback identity does not match expected execution"));
    }
    Ok(())
}

/// Why a capability does not grant this request at this second.
pub open spec fn claims_fault(
    claims: CapabilityClaims,
    policy: HmacVerificationPolicy,
    request_expiry: u64,
    now: u64,
) -> Option<Fault> {
    let skew = policy.clock_skew.seconds;
    if !(is_identity(claims.key_id@) && is_identity(claims.backend@) && is_identity(
        claims.namespace@,
    ) && is_identity(claims.job_id@) && is_identity(claims.shared_build_digest@) && is_identity(
        claims.nonce@,
    ) && is_identity(claims.request_key@)) {
        Some(fault::data_fault("Nomad callback identity is invalid"))
    } else if now + skew > u64::MAX {
        Some(fault::data_fault("Nomad callback clock is invalid"))
    } else if claims.expires_at + skew > u64::MAX || claims.version != 1 || claims.key_id@
        != policy.key_id@ || claims.backend@ != policy.backend@ || claims.namespace@
        != policy.namespace@ || claims.job_id@ != policy.job_id@ || claims.shared_build_digest@
        != policy.shared_build_digest@ || claims.issued_at > claims.expires_at || claims.issued_at
        > now + skew || now > claims.expires_at + skew || request_expiry != claims.expires_at {
        Some(fault::data_fault("Nomad callback capability is invalid"))
    } else {
        None
    }
}

fn validate_claims(
    claims: &CapabilityClaims,
    policy: &HmacVerificationPolicy,
    request_expiry: u64,
    now: u64,
) -> (checked: Result<(), Fault>)
    ensures
        match claims_fault(*claims, *policy, request_expiry, now) {
            Some(refusal) => checked == Err::<(), Fault>(refusal),
            None => checked is Ok,
        },
{
    validate_identity(claims.key_id.as_str())?;
    validate_identity(claims.backend.as_str())?;
    validate_identity(claims.namespace.as_str())?;
    validate_identity(claims.job_id.as_str())?;
    validate_identity(claims.shared_build_digest.as_str())?;
    validate_identity(claims.nonce.as_str())?;
    validate_identity(claims.request_key.as_str())?;
    let skew: u64 = policy.clock_skew.seconds;
    let latest_issued_at: u64 = match now.checked_add(skew) {
        Some(latest) => latest,
        None => {
            return Err(invalid_data("Nomad callback clock is invalid"));
        },
    };
    let latest_accepted_expiry: u64 = match claims.expires_at.checked_add(skew) {
        Some(latest) => latest,
        None => {
            return Err(invalid_data("Nomad callback capability is invalid"));
        },
    };
    if claims.version != 1 || claims.key_id != policy.key_id || claims.backend != policy.backend
        || claims.namespace != policy.namespace || claims.job_id != policy.job_id
        || claims.shared_build_digest != policy.shared_build_digest || claims.issued_at
        > claims.expires_at || claims.issued_at > latest_issued_at || now > latest_accepted_expiry
        || request_expiry != claims.expires_at {
        return Err(invalid_data("Nomad callback capability is invalid"));
    }
    Ok(())
}

/// Why an encoded signature is not the code of a message under a key.
pub open spec fn mac_fault(key: Seq<u8>, message: Seq<u8>, encoded: Seq<char>) -> Option<Fault> {
    if crypto::base64_decoded(encoded) == Some(crypto::hmac_sha256_of(key, message)) {
        None
    } else {
        Some(fault::data_fault("Nomad callback signature is invalid"))
    }
}

fn verify_mac(key: &[u8], message: &[u8], encoded_signature: &str) -> (checked: Result<(), Fault>)
    ensures
        match mac_fault(key@, message@, encoded_signature@) {
            Some(refusal) => checked == Err::<(), Fault>(refusal),
            None => checked is Ok,
        },
{
    let signature = match crypto::base64_decode(encoded_signature) {
        Some(signature) => signature,
        None => {
            return Err(invalid_data("Nomad callback signature is invalid"));
        },
    };
    if !crypto::hmac_sha256_matches(key, message, signature.as_slice()) {
        return Err(invalid_data("Nomad callback signature is invalid"));
    }
    Ok(())
}

/// The members of the authentication body that is digested, in the order of their names.
pub open spec fn body_members(
    authentication: Authentication,
    capability: Seq<char>,
    expiry: u64,
    nonce: Seq<char>,
) -> Seq<(Seq<char>, Seq<char>)> {
    seq![
        ("allocation_id"@, crypto::json_string(authentication.allocation_id@)),
        ("backend"@, crypto::json_string(authentication.backend@)),
        ("capability"@, crypto::json_string(capability)),
        ("expiry"@, text::decimal_text(expiry as nat)),
        ("job_id"@, crypto::json_string(authentication.job_id@)),
        ("namespace"@, crypto::json_string(authentication.namespace@)),
        ("nonce"@, crypto::json_string(nonce)),
        ("shared_build_digest"@, crypto::json_string(authentication.shared_build_digest@)),
        ("task"@, crypto::json_string(authentication.task@)),
    ]
}

proof fn body_members_are_sorted(
    authentication: Authentication,
    capability: Seq<char>,
    expiry: u64,
    nonce: Seq<char>,
)
    ensures
        crypto::are_sorted(body_members(authentication, capability, expiry, nonce)),
{
    let members = body_members(authentication, capability, expiry, nonce);
    reveal_strlit("allocation_id");
    reveal_strlit("backend");
    reveal_strlit("capability");
    reveal_strlit("expiry");
    reveal_strlit("job_id");
    reveal_strlit("namespace");
    reveal_strlit("nonce");
    reveal_strlit("shared_build_digest");
    reveal_strlit("task");
    assert("namespace"@.skip(1)[0] == 'a');
    assert("nonce"@.skip(1)[0] == 'o');
    assert forall|i: int, j: int| 0 <= i < j < members.len() implies text::precedes(
        (#[trigger] members[i]).0,
        (#[trigger] members[j]).0,
    ) by {
        if i == 5 && j == 6 {
            assert(text::precedes("namespace"@.skip(1), "nonce"@.skip(1)));
        } else {
            assert((members[i].0[0] as u32) < (members[j].0[0] as u32));
        }
    }
}

/// The digest of the authentication body.
pub open spec fn body_digest_of(
    authentication: Authentication,
    capability: Seq<char>,
    expiry: u64,
    nonce: Seq<char>,
) -> Seq<char> {
    crypto::base64_encoded(
        crypto::sha256_of(
            crypto::json_object(body_members(authentication, capability, expiry, nonce)),
        ),
    )
}

fn authentication_body_digest(
    authentication: &Authentication,
    capability: &str,
    expiry: u64,
    nonce: &str,
) -> (digest: Result<String, Fault>)
    ensures
        digest is Ok,
        digest->Ok_0@ == body_digest_of(*authentication, capability@, expiry, nonce@),
{
    let first: Vec<(String, String)> = vec![
        ("allocation_id".to_owned(), authentication.allocation_id.clone()),
        ("backend".to_owned(), authentication.backend.clone()),
        ("capability".to_owned(), capability.to_owned()),
    ];
    let numbers: Vec<(String, u64)> = vec![("expiry".to_owned(), expiry)];
    let rest: Vec<(String, String)> = vec![
        ("job_id".to_owned(), authentication.job_id.clone()),
        ("namespace".to_owned(), authentication.namespace.clone()),
        ("nonce".to_owned(), nonce.to_owned()),
        ("shared_build_digest".to_owned(), authentication.shared_build_digest.clone()),
        ("task".to_owned(), authentication.task.clone()),
    ];
    proof {
        body_members_are_sorted(*authentication, capability@, expiry, nonce@);
        assert(crypto::flat_members(
            crypto::text_members(first@),
            crypto::number_members(numbers@),
            crypto::text_members(rest@),
        ) =~= body_members(*authentication, capability@, expiry, nonce@));
    }
    match crypto::json_object_bytes(&first, &numbers, &rest) {
        Some(body) => Ok(crypto::base64_encode(crypto::sha256(body.as_slice()).as_slice())),
        None => Err(invalid_data("Nomad callback authentication body is invalid")),
    }
}

/// The text that a worker signs with its request key.
pub open spec fn signed_request(
    capability: Seq<char>,
    method: Seq<char>,
    path: Seq<char>,
    body_digest: Seq<char>,
    expiry: u64,
    nonce: Seq<char>,
) -> Seq<char> {
    capability + "\n"@ + method + "\n"@ + path + "\n"@ + body_digest + "\n"@ + text::decimal_text(
        expiry as nat,
    ) + "\n"@ + nonce
}

fn signed_request_text(
    capability: &str,
    method: &str,
    path: &str,
    body_digest: &str,
    expiry: u64,
    nonce: &str,
) -> (message: String)
    ensures
        message@ == signed_request(capability@, method@, path@, body_digest@, expiry, nonce@),
{
    let mut message = capability.to_owned();
    message.append("\n");
    message.append(method);
    message.append("\n");
    message.append(path);
    message.append("\n");
    message.append(body_digest);
    message.append("\n");
    text::append_decimal(&mut message, expiry);
    message.append("\n");
    message.append(nonce);
    message
}

/// The parts of an authentication by an HMAC, as they are shown.
pub struct Presented {
    pub authentication: Authentication,
    pub capability: Seq<char>,
    pub expiry: u64,
    pub nonce: Seq<char>,
    pub body_digest: Seq<char>,
    pub signature: Seq<char>,
}

/// What an authentication presents, where its proof is an HMAC proof.
pub open spec fn presented(authentication: Authentication) -> Option<Presented> {
    let evidence = authentication.proof;
    match evidence {
        AuthenticationProof::Hmac { capability, expiry, nonce, body_digest, signature } => Some(
            Presented {
                authentication,
                capability: capability@,
                expiry,
                nonce: nonce@,
                body_digest: body_digest@,
                signature: signature@,
            },
        ),
        AuthenticationProof::WorkloadIdentity { .. } => None,
    }
}

/// Why a request is refused before its capability is looked at; `now` is in seconds since the
/// Unix epoch.
pub open spec fn request_fault(
    authentication: Authentication,
    policy: HmacVerificationPolicy,
    method: Seq<char>,
    path: Seq<char>,
    now: i64,
) -> Option<Fault> {
    match presented(authentication) {
        None => Some(fault::data_fault("Nomad callback authentication mode is invalid")),
        Some(shown) => match identity_fault(authentication, policy) {
            Some(refusal) => Some(refusal),
            None => if method != "POST"@ || path.len() == 0 || path[0] != '/' || path.contains(
                '#',
            ) {
                Some(fault::data_fault("Nomad callback request target is invalid"))
            } else if !is_identity(shown.nonce) {
                Some(fault::data_fault("Nomad callback identity is invalid"))
            } else if now < 0 {
                Some(fault::data_fault("Nomad callback clock is invalid"))
            } else {
                None
            },
        },
    }
}

/// The claims of a capability as bytes, where the gateway has signed them.
pub open spec fn signed_claims(secret: Seq<u8>, capability: Seq<char>) -> Result<Seq<u8>, Fault> {
    let refused = fault::data_fault("Nomad callback capability is invalid");
    match text::split_once(capability, '.') {
        None => Err(refused),
        Some((claims, signature)) => if text::byte_length(capability) > MAXIMUM_CAPABILITY_BYTES
            || claims.len() == 0 || signature.len() == 0 || signature.contains('.') {
            Err(refused)
        } else {
            match mac_fault(secret, encode_utf8(claims), signature) {
                Some(refusal) => Err(refusal),
                None => match crypto::base64_decoded(claims) {
                    Some(bytes) => if bytes.len() > MAXIMUM_CAPABILITY_BYTES {
                        Err(refused)
                    } else {
                        Ok(bytes)
                    },
                    None => Err(refused),
                },
            }
        },
    }
}

/// Why a request is refused once its claims have been read; `None` stands for claims that could
/// not be read.
pub open spec fn granted_fault(
    shown: Presented,
    policy: HmacVerificationPolicy,
    method: Seq<char>,
    path: Seq<char>,
    now: u64,
    claims: Option<CapabilityClaims>,
) -> Option<Fault> {
    match claims {
        None => Some(fault::data_fault("Nomad callback capability is invalid")),
        Some(granted) => match claims_fault(granted, policy, shown.expiry, now) {
            Some(refusal) => Some(refusal),
            None => if shown.body_digest != body_digest_of(
                shown.authentication,
                shown.capability,
                shown.expiry,
                shown.nonce,
            ) {
                Some(fault::data_fault("Nomad callback body digest is invalid"))
            } else {
                match crypto::base64_decoded(granted.request_key@) {
                    None => Some(fault::data_fault("Nomad callback capability is invalid")),
                    Some(key) => mac_fault(
                        key,
                        encode_utf8(
                            signed_request(
                                shown.capability,
                                method,
                                path,
                                shown.body_digest,
                                shown.expiry,
                                shown.nonce,
                            ),
                        ),
                        shown.signature,
                    ),
                }
            },
        },
    }
}

/// A nonce is among those retained.
pub open spec fn is_retained(nonces: Seq<RetainedNonce>, nonce: Seq<char>) -> bool {
    exists|i: int| 0 <= i < nonces.len() && (#[trigger] nonces[i]).nonce@ == nonce
}

/// The nonces that are still retained at a second.
pub open spec fn unexpired(nonces: Seq<RetainedNonce>, now: u64) -> Seq<RetainedNonce>
    decreases nonces.len(),
{
    if nonces.len() == 0 {
        nonces
    } else {
        let before = unexpired(nonces.drop_last(), now);
        if nonces.last().retained_until > now {
            before.push(nonces.last())
        } else {
            before
        }
    }
}

/// Why the nonce of a granted request cannot be used.
pub open spec fn nonce_fault(
    nonces: Seq<RetainedNonce>,
    nonce: Seq<char>,
    policy: HmacVerificationPolicy,
    now: u64,
) -> Option<Fault> {
    if is_retained(nonces, nonce) {
        Some(fault::data_fault("Nomad callback request was replayed"))
    } else if nonces.len() >= policy.maximum_retained_nonces {
        Some(fault::data_fault("Nomad callback replay capacity is exhausted"))
    } else if now + policy.nonce_retention.seconds > u64::MAX {
        Some(fault::data_fault("Nomad callback nonce retention is invalid"))
    } else {
        None
    }
}

/// Why a request is refused, with the claims that were read and the nonces still retained.
pub open spec fn refusal(
    authentication: Authentication,
    policy: HmacVerificationPolicy,
    method: Seq<char>,
    path: Seq<char>,
    now: i64,
    claims: Option<CapabilityClaims>,
    nonces: Seq<RetainedNonce>,
) -> Option<Fault> {
    match request_fault(authentication, policy, method, path, now) {
        Some(refused) => Some(refused),
        None => {
            let shown = presented(authentication)->0;
            match signed_claims(policy.secret@, shown.capability) {
                Err(refused) => Some(refused),
                Ok(_) => match granted_fault(shown, policy, method, path, now as u64, claims) {
                    Some(refused) => Some(refused),
                    None => nonce_fault(
                        unexpired(nonces, now as u64),
                        shown.nonce,
                        policy,
                        now as u64,
                    ),
                },
            }
        },
    }
}

/// Verifies the requests of the worker of one execution.
#[derive(Debug)]
pub struct HmacCallbackVerifier {
    policy: HmacVerificationPolicy,
    nonces: Vec<RetainedNonce>,
}

impl HmacCallbackVerifier {
    pub closed spec fn spec_policy(&self) -> HmacVerificationPolicy {
        self.policy
    }

    /// The nonces that have been used and not yet forgotten.
    pub closed spec fn retained(&self) -> Seq<RetainedNonce> {
        self.nonces@
    }

    /// The policy is usable, no nonce is retained twice, and no more are retained than allowed.
    pub open spec fn well_formed(&self) -> bool {
        let nonces = self.retained();
        &&& usable(self.spec_policy())
        &&& names_are_identities(self.spec_policy())
        &&& nonces.len() <= self.spec_policy().maximum_retained_nonces
        &&& forall|i: int, j: int|
            0 <= i < j < nonces.len() ==> (#[trigger] nonces[i]).nonce@ != (
            #[trigger] nonces[j]).nonce@
    }

    /// Starts without any nonce retained.
    pub fn new(policy: HmacVerificationPolicy) -> (verifier: Result<Self, Fault>)
        ensures
            match verifier {
                Ok(started) => usable(policy) && names_are_identities(policy)
                    && started.well_formed() && started.spec_policy() == policy
                    && started.retained().len() == 0,
                Err(refused) => refused == (if !usable(policy) {
                    fault::data_fault("Nomad HMAC verification policy is invalid")
                } else {
                    fault::data_fault("Nomad callback identity is invalid")
                }) && !(usable(policy) && names_are_identities(policy)),
            },
    {
        if policy.secret.len() == 0 || policy.maximum_retained_nonces == 0
            || policy.nonce_retention.is_zero() {
            return Err(invalid_data("Nomad HMAC verification policy is invalid"));
        }
        validate_identity(policy.key_id.as_str())?;
        validate_identity(policy.backend.as_str())?;
        validate_identity(policy.namespace.as_str())?;
        validate_identity(policy.job_id.as_str())?;
        validate_identity(policy.shared_build_digest.as_str())?;
        validate_identity(policy.task.as_str())?;
        Ok(HmacCallbackVerifier { policy, nonces: Vec::new() })
    }

    /// Forgets the nonces whose time has come.
    fn remove_expired_nonces(&mut self, now: u64)
        requires
            old(self).well_formed(),
        ensures
            final(self).well_formed(),
            final(self).spec_policy() == old(self).spec_policy(),
            final(self).retained() == unexpired(old(self).retained(), now),
    {
        let ghost before = self.nonces@;
        let mut kept: Vec<RetainedNonce> = Vec::new();
        let mut i: usize = 0;
        assert(before.take(0) =~= Seq::<RetainedNonce>::empty());
        while i < self.nonces.len()
            invariant
                self.nonces@ == before,
                i <= before.len(),
                kept@ == unexpired(before.take(i as int), now),
            decreases before.len() - i,
        {
            assert(before.take(i + 1).drop_last() =~= before.take(i as int));
            if self.nonces[i].retained_until > now {
                let entry = RetainedNonce {
                    nonce: self.nonces[i].nonce.clone(),
                    retained_until: self.nonces[i].retained_until,
                };
                kept.push(entry);
            }
            i += 1;
        }
        assert(before.take(before.len() as int) =~= before);
        proof {
            unexpired_is_contained(before, now);
        }
        self.nonces = kept;
    }

    /// Verifies a request. `now` is in seconds since the Unix epoch, and `parse` reads the bytes
    /// of signed claims; it is given no others.
    #[verifier::rlimit(40)]
    pub fn verify<F: FnOnce(&[u8]) -> Option<CapabilityClaims>>(
        &mut self,
        authentication: &Authentication,
        method: &str,
        path: &str,
        now: i64,
        parse: F,
    ) -> (verified: Result<VerifiedHmacRequest, Fault>)
        requires
            old(self).well_formed(),
            forall|read: &[u8]|
                presented(*authentication) is Some && signed_claims(
                    old(self).spec_policy().secret@,
                    presented(*authentication)->0.capability,
                ) == Ok::<Seq<u8>, Fault>(read@) ==> #[trigger] parse.requires((read,)),
        ensures
            final(self).well_formed(),
            final(self).spec_policy() == old(self).spec_policy(),
            ({
                let policy = old(self).spec_policy();
                let nonces = old(self).retained();
                match request_fault(*authentication, policy, method@, path@, now) {
                    Some(refused) => {
                        &&& verified == Err::<VerifiedHmacRequest, Fault>(refused)
                        &&& final(self).retained() == nonces
                    },
                    None => {
                        let shown = presented(*authentication)->0;
                        let second = now as u64;
                        match signed_claims(policy.secret@, shown.capability) {
                            Err(refused) => {
                                &&& verified == Err::<VerifiedHmacRequest, Fault>(refused)
                                &&& final(self).retained() == unexpired(nonces, second)
                            },
                            Ok(bytes) => exists|read: &[u8], claims: Option<CapabilityClaims>|
                                {
                                    &&& read@ == bytes
                                    &&& #[trigger] parse.ensures((read,), claims)
                                    &&& match refusal(
                                        *authentication,
                                        policy,
                                        method@,
                                        path@,
                                        now,
                                        claims,
                                        nonces,
                                    ) {
                                        Some(refused) => {
                                            &&& verified == Err::<VerifiedHmacRequest, Fault>(
                                                refused,
                                            )
                                            &&& final(self).retained() == unexpired(nonces, second)
                                        },
                                        None => {
                                            let until = (second + policy.nonce_retention.seconds)
                                                as u64;
                                            let retained = final(self).retained();
                                            &&& verified is Ok
                                            &&& verified->Ok_0.spec_nonce() == shown.nonce
                                            &&& verified->Ok_0.spec_expires_at() == until
                                            &&& retained.drop_last() == unexpired(nonces, second)
                                            &&& retained.len() > 0
                                            &&& retained.last().nonce@ == shown.nonce
                                            &&& retained.last().retained_until == until
                                        },
                                    }
                                },
                        }
                    },
                }
            }),
    {
        let evidence = &authentication.proof;
        let (capability, expiry, nonce, body_digest, signature) = match evidence {
            AuthenticationProof::Hmac { capability, expiry, nonce, body_digest, signature } => (
                capability.as_str(),
                *expiry,
                nonce.as_str(),
                body_digest.as_str(),
                signature.as_str(),
            ),
            AuthenticationProof::WorkloadIdentity { .. } => {
                return Err(invalid_data("Nomad callback authentication mode is invalid"));
            },
        };
        let ghost policy = self.policy;
        let ghost nonces = self.nonces@;
        validate_authentication_identity(authentication, &self.policy)?;
        let target = text::characters(path);
        if !text::same_text(method, "POST") || path.is_empty() || target[0] != '/'
            || text::contains_character(path, '#') {
            return Err(invalid_data("Nomad callback request target is invalid"));
        }
        validate_identity(nonce)?;
        if now < 0 {
            return Err(invalid_data("Nomad callback clock is invalid"));
        }
        let second: u64 = now as u64;
        self.remove_expired_nonces(second);

        let whole = text::characters(capability);
        let dot: Vec<char> = vec!['.'];
        assert(dot@ =~= seq!['.']);
        let place = match text::find(whole.as_slice(), dot.as_slice()) {
            Some(place) => place,
            None => {
                return Err(invalid_data("Nomad callback capability is invalid"));
            },
        };
        proof {
            text::position_is_first(capability@, seq!['.']);
        }
        let length: usize = whole.len();
        let encoded_claims = capability.substring_char(0, place);
        let encoded_signature = capability.substring_char(place + 1, length);
        assert(encoded_claims@ =~= capability@.take(place as int));
        assert(encoded_signature@ =~= capability@.skip(place + 1));
        if text::length_in_bytes(capability) > MAXIMUM_CAPABILITY_BYTES || encoded_claims.is_empty()
            || encoded_signature.is_empty() || text::contains_character(encoded_signature, '.') {
            return Err(invalid_data("Nomad callback capability is invalid"));
        }
        verify_mac(self.policy.secret.as_slice(), encoded_claims.as_bytes(), encoded_signature)?;
        let claims_bytes = match crypto::base64_decode(encoded_claims) {
            Some(claims_bytes) => claims_bytes,
            None => {
                return Err(invalid_data("Nomad callback capability is invalid"));
            },
        };
        if claims_bytes.len() > MAXIMUM_CAPABILITY_BYTES {
            return Err(invalid_data("Nomad callback capability is invalid"));
        }
        let parsed = parse(claims_bytes.as_slice());
        let claims = match parsed {
            Some(claims) => claims,
            None => {
                return Err(invalid_data("Nomad callback capability is invalid"));
            },
        };
        validate_claims(&claims, &self.policy, expiry, second)?;
        let expected_body_digest = authentication_body_digest(
            authentication,
            capability,
            expiry,
            nonce,
        )?;
        if !text::same_text(expected_body_digest.as_str(), body_digest) {
            return Err(invalid_data("Nomad callback body digest is invalid"));
        }
        let request_key = match crypto::base64_decode(claims.request_key.as_str()) {
            Some(request_key) => request_key,
            None => {
                return Err(invalid_data("Nomad callback capability is invalid"));
            },
        };
        let message = signed_request_text(capability, method, path, body_digest, expiry, nonce);
        verify_mac(request_key.as_slice(), message.as_str().as_bytes(), signature)?;
        if contains_nonce(&self.nonces, nonce) {
            return Err(invalid_data("Nomad callback request was replayed"));
        }
        if self.nonces.len() >= self.policy.maximum_retained_nonces {
            return Err(invalid_data("Nomad callback replay capacity is exhausted"));
        }
        let retained_until: u64 = match second.checked_add(self.policy.nonce_retention.seconds) {
            Some(retained_until) => retained_until,
            None => {
                return Err(invalid_data("Nomad callback nonce retention is invalid"));
            },
        };
        let ghost before = self.nonces@;
        self.nonces.push(RetainedNonce { nonce: nonce.to_owned(), retained_until });
        assert(self.nonces@.drop_last() =~= before);
        Ok(VerifiedHmacRequest { nonce: nonce.to_owned(), expires_at: retained_until })
    }
}

fn contains_nonce(nonces: &Vec<RetainedNonce>, nonce: &str) -> (found: bool)
    ensures
        found == is_retained(nonces@, nonce@),
{
    let mut i: usize = 0;
    while i < nonces.len()
        invariant
            i <= nonces@.len(),
            forall|j: int| 0 <= j < i ==> (#[trigger] nonces@[j]).nonce@ != nonce@,
        decreases nonces@.len() - i,
    {
        if text::same_text(nonces[i].nonce.as_str(), nonce) {
            return true;
        }
        i += 1;
    }
    false
}

/// Forgetting nonces keeps the order of the rest, and keeps exactly those whose time has not
/// come.
pub proof fn unexpired_is_contained(nonces: Seq<RetainedNonce>, now: u64)
    ensures
        unexpired(nonces, now).len() <= nonces.len(),
        forall|i: int|
            0 <= i < unexpired(nonces, now).len() ==> (#[trigger] unexpired(
                nonces,
                now,
            )[i]).retained_until > now && exists|k: int| 0 <= k < nonces.len() && nonces[k] == unexpired(nonces, now)[i],
        forall|k: int|
            0 <= k < nonces.len() && (#[trigger] nonces[k]).retained_until > now ==> unexpired(
                nonces,
                now,
            ).contains(nonces[k]),
        (forall|i: int, j: int|
            0 <= i < j < nonces.len() ==> (#[trigger] nonces[i]).nonce@ != (
            #[trigger] nonces[j]).nonce@) ==> (forall|i: int, j: int|
            0 <= i < j < unexpired(nonces, now).len() ==> (#[trigger] unexpired(
                nonces,
                now,
            )[i]).nonce@ != (#[trigger] unexpired(nonces, now)[j]).nonce@),
    decreases nonces.len(),
{
    if nonces.len() > 0 {
        let earlier = nonces.drop_last();
        let before = unexpired(earlier, now);
        let after = unexpired(nonces, now);
        unexpired_is_contained(earlier, now);
        assert(forall|k: int| 0 <= k < earlier.len() ==> earlier[k] == nonces[k]);
        assert forall|i: int| 0 <= i < after.len() implies (#[trigger] after[i]).retained_until
            > now && exists|k: int| 0 <= k < nonces.len() && nonces[k] == after[i] by {
            if i < before.len() {
                let k = choose|k: int| 0 <= k < earlier.len() && earlier[k] == before[i];
                assert(nonces[k] == after[i]);
            } else {
                assert(nonces[nonces.len() - 1] == after[i]);
            }
        }
        assert forall|k: int| 0 <= k < nonces.len() && (#[trigger] nonces[k]).retained_until
            > now implies after.contains(nonces[k]) by {
            if k < earlier.len() {
                assert(before.contains(earlier[k]));
                let i = choose|i: int| 0 <= i < before.len() && before[i] == earlier[k];
                assert(after[i] == nonces[k]);
            } else {
                assert(after[after.len() - 1] == nonces[k]);
            }
        }
        if forall|i: int, j: int|
            0 <= i < j < nonces.len() ==> (#[trigger] nonces[i]).nonce@ != (
            #[trigger] nonces[j]).nonce@ {
            assert(forall|i: int, j: int|
                0 <= i < j < earlier.len() ==> (#[trigger] earlier[i]).nonce@ != (
                #[trigger] earlier[j]).nonce@);
            assert forall|i: int, j: int| 0 <= i < j < after.len() implies (
            #[trigger] after[i]).nonce@ != (#[trigger] after[j]).nonce@ by {
                if j < before.len() {
                    assert(before[i].nonce@ != before[j].nonce@);
                } else {
                    let k = choose|k: int| 0 <= k < earlier.len() && earlier[k] == before[i];
                    assert(nonces[k] == after[i]);
                }
            }
        }
    }
}

/// While a nonce is retained, no request that presents it is verified, whatever its claims.
pub proof fn replay_is_refused(
    authentication: Authentication,
    policy: HmacVerificationPolicy,
    method: Seq<char>,
    path: Seq<char>,
    now: i64,
    claims: Option<CapabilityClaims>,
    nonces: Seq<RetainedNonce>,
    used: int,
)
    requires
        presented(authentication) is Some,
        0 <= used < nonces.len(),
        nonces[used].nonce@ == (presented(authentication)->0).nonce,
        now < nonces[used].retained_until,
    ensures
        refusal(authentication, policy, method, path, now, claims, nonces) is Some,
{
    if now >= 0 {
        let second = now as u64;
        unexpired_is_contained(nonces, second);
        let kept = unexpired(nonces, second);
        assert(nonces[used].retained_until > second);
        let i = choose|i: int| 0 <= i < kept.len() && kept[i] == nonces[used];
        assert(kept[i].nonce@ == (presented(authentication)->0).nonce);
    }
}

/// A worker is who the gateway expects: each of its names is an identity, and each is the one that
/// the execution has.
pub open spec fn is_expected(
    authentication: Authentication,
    policy: HmacVerificationPolicy,
) -> bool {
    &&& authentication.backend@ == policy.backend@ && is_identity(policy.backend@)
    &&& authentication.namespace@ == policy.namespace@ && is_identity(policy.namespace@)
    &&& authentication.job_id@ == policy.job_id@ && is_identity(policy.job_id@)
    &&& authentication.task@ == policy.task@ && is_identity(policy.task@)
    &&& authentication.shared_build_digest@ == policy.shared_build_digest@ && is_identity(
        policy.shared_build_digest@,
    )
    &&& is_identity(authentication.allocation_id@)
}

/// A capability was signed by the gateway: what stands before its only dot has the code that stands
/// after it, under the secret.
pub open spec fn is_signed(capability: Seq<char>, secret: Seq<u8>) -> bool {
    &&& text::split_once(capability, '.') is Some
    &&& ({
        let claims = (text::split_once(capability, '.')->0).0;
        let signature = (text::split_once(capability, '.')->0).1;
        &&& claims.len() > 0
        &&& signature.len() > 0
        &&& !signature.contains('.')
        &&& crypto::base64_decoded(signature) == Some(
            crypto::hmac_sha256_of(secret, encode_utf8(claims)),
        )
        &&& crypto::base64_decoded(claims) is Some
        &&& (crypto::base64_decoded(claims)->0).len() <= 4096
    })
    &&& text::byte_length(capability) <= 4096
}

/// Claims grant what is asked for now: they are of this execution, have begun and have not ended,
/// within the skew of clocks, and end when the request does.
pub open spec fn grants(
    claims: CapabilityClaims,
    policy: HmacVerificationPolicy,
    expiry: u64,
    now: u64,
) -> bool {
    let skew = policy.clock_skew.seconds;
    &&& claims.version == 1
    &&& claims.key_id@ == policy.key_id@ && is_identity(policy.key_id@)
    &&& claims.backend@ == policy.backend@ && is_identity(policy.backend@)
    &&& claims.namespace@ == policy.namespace@ && is_identity(policy.namespace@)
    &&& claims.job_id@ == policy.job_id@ && is_identity(policy.job_id@)
    &&& claims.shared_build_digest@ == policy.shared_build_digest@ && is_identity(
        policy.shared_build_digest@,
    )
    &&& is_identity(claims.nonce@)
    &&& is_identity(claims.request_key@)
    &&& now + skew <= u64::MAX
    &&& claims.issued_at <= claims.expires_at
    &&& claims.issued_at <= now + skew
    &&& now <= claims.expires_at + skew
    &&& claims.expires_at + skew <= u64::MAX
    &&& expiry == claims.expires_at
}

/// A worker is let in exactly where all of its proof is in order: it is who is expected, its
/// capability was signed by the gateway and grants this request now, the body that it speaks of is
/// its own, the request was signed with the key that it was granted, and its nonce was not used
/// since it has to be remembered and can be remembered.
pub proof fn only_a_whole_proof_is_accepted(
    authentication: Authentication,
    policy: HmacVerificationPolicy,
    method: Seq<char>,
    path: Seq<char>,
    now: i64,
    claims: CapabilityClaims,
    nonces: Seq<RetainedNonce>,
)
    ensures
        refusal(authentication, policy, method, path, now, Some(claims), nonces) is None <==> {
            &&& authentication.proof matches AuthenticationProof::Hmac {
                capability,
                expiry,
                nonce,
                body_digest,
                signature,
            }
            &&& is_expected(authentication, policy)
            &&& method == "POST"@
            &&& path.len() > 0 && path[0] == '/' && !path.contains('#')
            &&& is_identity(nonce@)
            &&& now >= 0
            &&& is_signed(capability@, policy.secret@)
            &&& grants(claims, policy, expiry, now as u64)
            &&& body_digest@ == crypto::base64_encoded(
                crypto::sha256_of(
                    crypto::json_object(
                        seq![
                            ("allocation_id"@, crypto::json_string(authentication.allocation_id@)),
                            ("backend"@, crypto::json_string(policy.backend@)),
                            ("capability"@, crypto::json_string(capability@)),
                            ("expiry"@, text::decimal_text(expiry as nat)),
                            ("job_id"@, crypto::json_string(policy.job_id@)),
                            ("namespace"@, crypto::json_string(policy.namespace@)),
                            ("nonce"@, crypto::json_string(nonce@)),
                            (
                                "shared_build_digest"@,
                                crypto::json_string(policy.shared_build_digest@),
                            ),
                            ("task"@, crypto::json_string(policy.task@)),
                        ],
                    ),
                ),
            )
            &&& crypto::base64_decoded(claims.request_key@) is Some
            &&& crypto::base64_decoded(signature@) == Some(
                crypto::hmac_sha256_of(
                    crypto::base64_decoded(claims.request_key@)->0,
                    encode_utf8(
                        capability@ + "\n"@ + "POST"@ + "\n"@ + path + "\n"@ + body_digest@
                            + "\n"@ + text::decimal_text(expiry as nat) + "\n"@ + nonce@,
                    ),
                ),
            )
            &&& !is_retained(unexpired(nonces, now as u64), nonce@)
            &&& unexpired(nonces, now as u64).len() < policy.maximum_retained_nonces
            &&& now + policy.nonce_retention.seconds <= u64::MAX
        },
{
}

} // verus!
