//! Nonces of callbacks: each is taken once while it is retained, and only so many are retained.

use crate::crypto;
use crate::persistence::database::{self, digest, Moment, Reply, Statement, Step};
use crate::text;
use vstd::prelude::*;
use vstd::utf8::*;

verus! {

/// A nonce could not be reserved.
#[derive(Clone, Copy, Debug, PartialEq, Eq, Structural)]
pub struct NomadCallbackNonceError;

impl NomadCallbackNonceError {
    pub fn message(&self) -> (message: &'static str)
        ensures
            message@ == "Nomad callback replay persistence failed"@,
    {
        "Nomad callback replay persistence failed"
    }
}

/// A character that may stand in a name of Nomad.
pub open spec fn is_name_character(character: char) -> bool {
    ||| text::is_digit(character)
    ||| 0x41 <= character as u32 <= 0x5a
    ||| 0x61 <= character as u32 <= 0x7a
    ||| character == '-'
    ||| character == '_'
    ||| character == '.'
}

/// A name of Nomad: up to 256 letters, digits, hyphens, underscores and dots.
pub open spec fn is_nomad_name(value: Seq<char>) -> bool {
    &&& database::is_bounded(value, 256)
    &&& forall|i: int| 0 <= i < value.len() ==> is_name_character(#[trigger] value[i])
}

fn valid_nomad_callback_component(value: &str) -> (valid: bool)
    ensures
        valid == is_nomad_name(value@),
{
    if !database::bounded(value, 256) {
        return false;
    }
    let characters = text::characters(value);
    let mut i: usize = 0;
    while i < characters.len()
        invariant
            characters@ == value@,
            i <= characters@.len(),
            forall|j: int| 0 <= j < i ==> is_name_character(#[trigger] value@[j]),
        decreases characters@.len() - i,
    {
        let character = characters[i];
        let code: u32 = character as u32;
        if !((0x30 <= code && code <= 0x39) || (0x41 <= code && code <= 0x5a) || (0x61 <= code
            && code <= 0x7a) || character == '-' || character == '_' || character == '.') {
            assert(!is_name_character(value@[i as int]));
            return false;
        }
        i += 1;
    }
    true
}

/// What a reservation is made with is complete and in bounds.
pub open spec fn inputs_valid(
    database_url: Seq<char>,
    backend_name: Seq<char>,
    job_id: Seq<char>,
    allocation_id: Seq<char>,
    nonce: Seq<char>,
    maximum_retained_nonces: nat,
) -> bool {
    &&& !text::is_blank(database_url)
    &&& is_nomad_name(backend_name)
    &&& is_nomad_name(job_id)
    &&& is_nomad_name(allocation_id)
    &&& database::is_bounded(nonce, 256)
    &&& !text::has_control(nonce)
    &&& 0 < maximum_retained_nonces <= i64::MAX
}

pub open spec fn refused() -> Step<bool, NomadCallbackNonceError> {
    Step::Finish(Err(NomadCallbackNonceError))
}

/// How a nonce is reserved: under a lock, expired ones are forgotten and the rest counted; where
/// there is room, the digest of the nonce is inserted, and it is new if a row came of that.
pub open spec fn reserve_step(
    database_url: Seq<char>,
    backend_name: String,
    job_id: String,
    allocation_id: String,
    nonce: Seq<char>,
    expires_at: Moment,
    maximum_retained_nonces: nat,
    history: Seq<Reply>,
) -> Step<bool, NomadCallbackNonceError> {
    if !inputs_valid(
        database_url,
        backend_name@,
        job_id@,
        allocation_id@,
        nonce,
        maximum_retained_nonces,
    ) {
        refused()
    } else if let Some(step) = database::begun(history, NomadCallbackNonceError) {
        step
    } else if history.len() == 1 {
        Step::Perform(Statement::LockCallbackNonces)
    } else if history[1] !is Done {
        refused()
    } else if history.len() == 2 {
        Step::Perform(Statement::ForgetExpiredCallbackNonces)
    } else if history[2] !is Changed {
        refused()
    } else if history.len() == 3 {
        Step::Perform(Statement::CountCallbackNonces)
    } else if !(history[3] matches Reply::Count(retained) && retained < maximum_retained_nonces) {
        refused()
    } else if history.len() == 4 {
        Step::Perform(
            Statement::InsertCallbackNonce {
                nonce_digest: database::digest_of(crypto::sha256_of(encode_utf8(nonce))),
                backend_name,
                job_id,
                allocation_id,
                expires_at,
            },
        )
    } else {
        match history[4] {
            Reply::Changed(inserted) => database::committed(
                history,
                5,
                inserted == 1,
                NomadCallbackNonceError,
            ),
            _ => refused(),
        }
    }
}

/// Reserves a nonce; `false` where it was taken before.
pub fn reserve_nomad_callback_nonce(
    database_url: &str,
    backend_name: &String,
    job_id: &String,
    allocation_id: &String,
    nonce: &str,
    expires_at: Moment,
    maximum_retained_nonces: usize,
    history: &Vec<Reply>,
) -> (step: Step<bool, NomadCallbackNonceError>)
    ensures
        step == reserve_step(
            database_url@,
            *backend_name,
            *job_id,
            *allocation_id,
            nonce@,
            expires_at,
            maximum_retained_nonces as nat,
            history@,
        ),
{
    if text::blank(database_url) || !valid_nomad_callback_component(backend_name.as_str())
        || !valid_nomad_callback_component(job_id.as_str()) || !valid_nomad_callback_component(
        allocation_id.as_str(),
    ) || !database::bounded(nonce, 256) || text::contains_control(nonce) || maximum_retained_nonces
        == 0 || maximum_retained_nonces as u64 > i64::MAX as u64 {
        return Step::Finish(Err(NomadCallbackNonceError));
    }
    let maximum: i64 = maximum_retained_nonces as i64;
    if let Some(step) = database::begin(history, NomadCallbackNonceError) {
        return step;
    }
    if history.len() == 1 {
        return Step::Perform(Statement::LockCallbackNonces);
    }
    match &history[1] {
        Reply::Done => {},
        _ => {
            return Step::Finish(Err(NomadCallbackNonceError));
        },
    }
    if history.len() == 2 {
        return Step::Perform(Statement::ForgetExpiredCallbackNonces);
    }
    match &history[2] {
        Reply::Changed(_) => {},
        _ => {
            return Step::Finish(Err(NomadCallbackNonceError));
        },
    }
    if history.len() == 3 {
        return Step::Perform(Statement::CountCallbackNonces);
    }
    match &history[3] {
        Reply::Count(retained) => {
            if *retained >= maximum {
                return Step::Finish(Err(NomadCallbackNonceError));
            }
        },
        _ => {
            return Step::Finish(Err(NomadCallbackNonceError));
        },
    }
    if history.len() == 4 {
        let hashed = crypto::sha256(nonce.as_bytes());
        return match digest(hashed.as_slice()) {
            Some(nonce_digest) => Step::Perform(
                Statement::InsertCallbackNonce {
                    nonce_digest,
                    backend_name: backend_name.clone(),
                    job_id: job_id.clone(),
                    allocation_id: allocation_id.clone(),
                    expires_at,
                },
            ),
            None => Step::Finish(Err(NomadCallbackNonceError)),
        };
    }
    match &history[4] {
        Reply::Changed(inserted) => database::commit(
            history,
            5,
            *inserted == 1,
            NomadCallbackNonceError,
        ),
        _ => Step::Finish(Err(NomadCallbackNonceError)),
    }
}

/// A nonce is only inserted while fewer than the given number of others are retained, so the
/// number never grows past it.
pub proof fn retained_nonces_stay_bounded(
    database_url: Seq<char>,
    backend_name: String,
    job_id: String,
    allocation_id: String,
    nonce: Seq<char>,
    expires_at: Moment,
    maximum_retained_nonces: nat,
    history: Seq<Reply>,
)
    requires
        reserve_step(
            database_url,
            backend_name,
            job_id,
            allocation_id,
            nonce,
            expires_at,
            maximum_retained_nonces,
            history,
        ) matches Step::Perform(Statement::InsertCallbackNonce { .. }),
    ensures
        history[3] matches Reply::Count(retained) && retained + 1 <= maximum_retained_nonces,
{
}

} // verus!
