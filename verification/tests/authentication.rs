use base64::engine::general_purpose::URL_SAFE_NO_PAD;
use base64::Engine;
use hmac::{Hmac, Mac};
use sha2::{Digest, Sha256};
use telchar::nomad_transfer_authentication::{
    Authentication, AuthenticationProof, CapabilityClaims, HmacCallbackVerifier,
    HmacVerificationPolicy,
};
use telchar::time::Span;

const SECRET: &[u8] = b"shared secret";
const REQUEST_KEY: &[u8] = b"request key";

fn mac(key: &[u8], message: &[u8]) -> String {
    let mut mac = Hmac::<Sha256>::new_from_slice(key).unwrap();
    mac.update(message);
    URL_SAFE_NO_PAD.encode(mac.finalize().into_bytes())
}

fn policy() -> HmacVerificationPolicy {
    HmacVerificationPolicy {
        key_id: "key".into(),
        secret: SECRET.to_vec(),
        backend: "nomad".into(),
        namespace: "default".into(),
        job_id: "job".into(),
        shared_build_digest: "digest".into(),
        task: "build".into(),
        clock_skew: Span::from_seconds(5),
        nonce_retention: Span::from_seconds(60),
        maximum_retained_nonces: 2,
    }
}

fn claims_json(expires_at: u64) -> String {
    format!(
        "{{\"version\":1,\"key_id\":\"key\",\"backend\":\"nomad\",\"namespace\":\"default\",\
         \"job_id\":\"job\",\"shared_build_digest\":\"digest\",\"issued_at\":90,\
         \"expires_at\":{expires_at},\"nonce\":\"claim\",\"request_key\":\"{}\"}}",
        URL_SAFE_NO_PAD.encode(REQUEST_KEY)
    )
}

fn parse(bytes: &[u8]) -> Option<CapabilityClaims> {
    let value: serde_json::Value = serde_json::from_slice(bytes).ok()?;
    let text = |name: &str| Some(value.get(name)?.as_str()?.to_string());
    Some(CapabilityClaims {
        version: value.get("version")?.as_u64()? as u16,
        key_id: text("key_id")?,
        backend: text("backend")?,
        namespace: text("namespace")?,
        job_id: text("job_id")?,
        shared_build_digest: text("shared_build_digest")?,
        issued_at: value.get("issued_at")?.as_u64()?,
        expires_at: value.get("expires_at")?.as_u64()?,
        nonce: text("nonce")?,
        request_key: text("request_key")?,
    })
}

fn signed(nonce: &str, expiry: u64) -> Authentication {
    let claims = URL_SAFE_NO_PAD.encode(claims_json(expiry));
    let capability = format!("{claims}.{}", mac(SECRET, claims.as_bytes()));
    let body = format!(
        "{{\"allocation_id\":\"allocation\",\"backend\":\"nomad\",\"capability\":\"{capability}\",\
         \"expiry\":{expiry},\"job_id\":\"job\",\"namespace\":\"default\",\"nonce\":\"{nonce}\",\
         \"shared_build_digest\":\"digest\",\"task\":\"build\"}}"
    );
    let body_digest = URL_SAFE_NO_PAD.encode(Sha256::digest(body.as_bytes()));
    let message = format!("{capability}\nPOST\n/callback\n{body_digest}\n{expiry}\n{nonce}");
    Authentication {
        backend: "nomad".into(),
        namespace: "default".into(),
        job_id: "job".into(),
        allocation_id: "allocation".into(),
        task: "build".into(),
        shared_build_digest: "digest".into(),
        proof: AuthenticationProof::Hmac {
            capability,
            expiry,
            nonce: nonce.into(),
            body_digest,
            signature: mac(REQUEST_KEY, message.as_bytes()),
        },
    }
}

fn refusal(authentication: &Authentication, now: i64) -> &'static str {
    let mut verifier = HmacCallbackVerifier::new(policy()).unwrap();
    verifier
        .verify(authentication, "POST", "/callback", now, parse)
        .unwrap_err()
        .message
}

#[test]
fn signed_request_is_verified_once() {
    let mut verifier = HmacCallbackVerifier::new(policy()).unwrap();
    let request = signed("one", 100);
    let verified = verifier.verify(&request, "POST", "/callback", 95, parse).unwrap();
    assert_eq!(verified.nonce(), "one");
    assert_eq!(verified.expires_at(), 155);
    assert_eq!(
        verifier
            .verify(&request, "POST", "/callback", 96, parse)
            .unwrap_err()
            .message,
        "Nomad callback request was replayed"
    );
}

#[test]
fn only_so_many_nonces_are_retained() {
    let mut verifier = HmacCallbackVerifier::new(policy()).unwrap();
    for nonce in ["one", "two"] {
        verifier
            .verify(&signed(nonce, 1000), "POST", "/callback", 95, parse)
            .unwrap();
    }
    assert_eq!(
        verifier
            .verify(&signed("three", 1000), "POST", "/callback", 95, parse)
            .unwrap_err()
            .message,
        "Nomad callback replay capacity is exhausted"
    );
    verifier
        .verify(&signed("three", 1000), "POST", "/callback", 155, parse)
        .unwrap();
}

#[test]
fn signatures_and_digests_are_checked() {
    let mut altered = signed("one", 100);
    if let AuthenticationProof::Hmac { signature, .. } = &mut altered.proof {
        *signature = mac(b"another key", b"another message");
    }
    assert_eq!(refusal(&altered, 95), "Nomad callback signature is invalid");
    let mut altered = signed("one", 100);
    if let AuthenticationProof::Hmac { body_digest, .. } = &mut altered.proof {
        *body_digest = "AAAA".into();
    }
    assert_eq!(refusal(&altered, 95), "Nomad callback body digest is invalid");
    let mut altered = signed("one", 100);
    if let AuthenticationProof::Hmac { capability, .. } = &mut altered.proof {
        capability.push_str(".x");
    }
    assert_eq!(refusal(&altered, 95), "Nomad callback capability is invalid");
    let mut altered = signed("one", 100);
    if let AuthenticationProof::Hmac { capability, .. } = &mut altered.proof {
        *capability = capability.replace('.', ".A");
    }
    assert_eq!(refusal(&altered, 95), "Nomad callback signature is invalid");
}

#[test]
fn capability_has_to_be_in_time() {
    let request = signed("one", 100);
    let mut verifier = HmacCallbackVerifier::new(policy()).unwrap();
    assert!(verifier.verify(&request, "POST", "/callback", 105, parse).is_ok());
    assert_eq!(refusal(&request, 106), "Nomad callback capability is invalid");
    assert_eq!(refusal(&request, 84), "Nomad callback capability is invalid");
    assert_eq!(refusal(&request, -1), "Nomad callback clock is invalid");
}

#[test]
fn identity_and_target_are_checked() {
    let mut other = signed("one", 100);
    other.job_id = "another".into();
    assert_eq!(
        refusal(&other, 95),
        "Nomad callback identity does not match expected execution"
    );
    other.job_id = "".into();
    assert_eq!(refusal(&other, 95), "Nomad callback identity is invalid");
    let mut workload = signed("one", 100);
    workload.proof = AuthenticationProof::WorkloadIdentity { token: "t".into() };
    assert_eq!(
        refusal(&workload, 95),
        "Nomad callback authentication mode is invalid"
    );
    let mut verifier = HmacCallbackVerifier::new(policy()).unwrap();
    for (method, path) in [("GET", "/callback"), ("POST", "callback"), ("POST", "/a#b"), ("POST", "")] {
        assert_eq!(
            verifier
                .verify(&signed("one", 100), method, path, 95, parse)
                .unwrap_err()
                .message,
            "Nomad callback request target is invalid"
        );
    }
}

#[test]
fn policies_are_checked() {
    for broken in [
        HmacVerificationPolicy { secret: vec![], ..policy() },
        HmacVerificationPolicy { maximum_retained_nonces: 0, ..policy() },
        HmacVerificationPolicy { nonce_retention: Span::from_seconds(0), ..policy() },
    ] {
        assert_eq!(
            HmacCallbackVerifier::new(broken).unwrap_err().message,
            "Nomad HMAC verification policy is invalid"
        );
    }
    let control = HmacVerificationPolicy { task: "a\nb".into(), ..policy() };
    assert_eq!(
        HmacCallbackVerifier::new(control).unwrap_err().message,
        "Nomad callback identity is invalid"
    );
}

#[test]
fn unsigned_claims_are_not_parsed() {
    let mut altered = signed("one", 100);
    if let AuthenticationProof::Hmac { capability, .. } = &mut altered.proof {
        let claims = capability.split('.').next().unwrap().to_string();
        *capability = format!("{claims}.{}", mac(b"another key", claims.as_bytes()));
    }
    let mut verifier = HmacCallbackVerifier::new(policy()).unwrap();
    let refused = verifier.verify(
        &altered,
        "POST",
        "/callback",
        95,
        |_: &[u8]| -> Option<CapabilityClaims> { panic!("unsigned claims are not parsed") },
    );
    assert_eq!(refused.unwrap_err().message, "Nomad callback signature is invalid");
}
