//! Durable state: what is asked of the database, how its answers are read, and what follows from
//! them.

pub mod attachments;
pub mod attempts;
pub mod build_requests;
pub mod callback_nonces;
pub mod database;
pub mod executor;
pub mod leases;
pub mod migrations;
pub mod outcomes;
pub mod queue;
pub mod rows;
pub mod sessions;
pub mod shared_builds;

use crate::crypto;
use crate::service::ipc::RequesterMetadata;
use crate::text;
use vstd::prelude::*;
use vstd::utf8::*;

verus! {

/// The lock under which migrations run.
pub const MIGRATION_LOCK_KEY: i64 = 0x5445_4c43_4841_5201;

/// The lock under which retained inputs are let in.
pub const RETAINED_INPUT_ADMISSION_LOCK_KEY: i64 = 0x5445_4c43_4841_5204;

/// What is digested to refer to a requester: a tag and the three names, each after a zero byte.
pub open spec fn reference_message(
    credential_id: Seq<char>,
    audit_subject: Seq<char>,
    quota_subject: Seq<char>,
) -> Seq<u8> {
    encode_utf8("telchar-requester-v1"@) + seq![0u8] + encode_utf8(credential_id) + seq![0u8]
        + encode_utf8(audit_subject) + seq![0u8] + encode_utf8(quota_subject)
}

/// A requester by reference: the digest of its names, in hexadecimal.
pub fn requester_reference(requester: &RequesterMetadata) -> (reference: String)
    ensures
        reference@ == text::hexadecimal_bytes(
            crypto::sha256_of(
                reference_message(
                    requester.credential_id@,
                    requester.audit_subject@,
                    requester.quota_subject@,
                ),
            ),
        ),
{
    let mut message: Vec<u8> = Vec::new();
    crate::bytes::append_bytes(&mut message, "telchar-requester-v1".as_bytes());
    message.push(0);
    crate::bytes::append_bytes(&mut message, requester.credential_id.as_str().as_bytes());
    message.push(0);
    crate::bytes::append_bytes(&mut message, requester.audit_subject.as_str().as_bytes());
    message.push(0);
    crate::bytes::append_bytes(&mut message, requester.quota_subject.as_str().as_bytes());
    assert(message@ =~= reference_message(
        requester.credential_id@,
        requester.audit_subject@,
        requester.quota_subject@,
    ));
    text::hexadecimal(crypto::sha256(message.as_slice()).as_slice())
}

} // verus!
