//! Nonces on the rows of those reserved: one that is reserved stays so until it expires.

use crate::crypto;
use crate::persistence::callback_nonces::{self, NomadCallbackNonceError};
use crate::persistence::database::{self, Moment, Reply, Statement, Step};
use crate::persistence::rows::{self, end_is_reached, next_is_done};
use crate::text;
use vstd::prelude::*;
use vstd::utf8::*;

verus! {

/// For whom a nonce is reserved, and how long.
pub struct Reservation {
    pub backend_name: Seq<char>,
    pub job_id: Seq<char>,
    pub allocation_id: Seq<char>,
    pub expires_at: Moment,
}

/// The reserved nonces by their digests, and the time.
pub struct NonceRows {
    pub reserved: Map<Seq<u8>, Reservation>,
    pub now: Moment,
}

impl NonceRows {
    /// The reservations that have not expired.
    pub open spec fn unexpired(self) -> Map<Seq<u8>, Reservation> {
        self.reserved.filter_keys(|digest: Seq<u8>| self.reserved[digest].expires_at > self.now)
    }
}

/// The digest under which a nonce is reserved.
pub open spec fn digest_of_nonce(nonce: Seq<char>) -> Seq<u8> {
    crypto::sha256_of(encode_utf8(nonce))
}

/// What statements do to the reserved nonces. The time does not move within a transaction.
pub open spec fn nonces_change(
    before: NonceRows,
    statement: Statement,
    reply: Reply,
    after: NonceRows,
) -> bool {
    match statement {
        Statement::Begin | Statement::LockCallbackNonces | Statement::Commit => reply is Done
            && after == before,
        Statement::ForgetExpiredCallbackNonces => reply is Changed && after == (NonceRows {
            reserved: before.unexpired(),
            ..before
        }),
        Statement::CountCallbackNonces => after == before && match reply {
            Reply::Count(counted) => counted == before.reserved.len(),
            _ => false,
        },
        Statement::InsertCallbackNonce {
            nonce_digest,
            backend_name,
            job_id,
            allocation_id,
            expires_at,
        } => if before.reserved.contains_key(nonce_digest@) {
            reply == Reply::Changed(0) && after == before
        } else {
            let reservation = Reservation {
                backend_name: backend_name@,
                job_id: job_id@,
                allocation_id: allocation_id@,
                expires_at,
            };
            reply == Reply::Changed(1) && after == (NonceRows {
                reserved: before.reserved.insert(nonce_digest@, reservation),
                ..before
            })
        },
        _ => true,
    }
}

/// The model of the reserved nonces.
pub open spec fn on_nonces() -> spec_fn(NonceRows, Statement, Reply, NonceRows) -> bool {
    |before: NonceRows, statement: Statement, reply: Reply, after: NonceRows|
        nonces_change(before, statement, reply, after)
}

/// The reservation of a nonce.
pub open spec fn reserving(
    database_url: Seq<char>,
    backend_name: String,
    job_id: String,
    allocation_id: String,
    nonce: Seq<char>,
    expires_at: Moment,
    maximum_retained_nonces: nat,
) -> spec_fn(Seq<Reply>) -> Step<bool, NomadCallbackNonceError> {
    |history: Seq<Reply>|
        callback_nonces::reserve_step(
            database_url,
            backend_name,
            job_id,
            allocation_id,
            nonce,
            expires_at,
            maximum_retained_nonces,
            history,
        )
}

/// A nonce that is new is reserved for those who asked for it, until the moment that they gave.
pub proof fn new_nonce_is_reserved(
    database_url: Seq<char>,
    backend_name: String,
    job_id: String,
    allocation_id: String,
    nonce: Seq<char>,
    expires_at: Moment,
    maximum_retained_nonces: nat,
    tables: Seq<NonceRows>,
    history: Seq<Reply>,
)
    requires
        rows::ran(
            reserving(
                database_url,
                backend_name,
                job_id,
                allocation_id,
                nonce,
                expires_at,
                maximum_retained_nonces,
            ),
            on_nonces(),
            tables,
            history,
        ),
        callback_nonces::reserve_step(
            database_url,
            backend_name,
            job_id,
            allocation_id,
            nonce,
            expires_at,
            maximum_retained_nonces,
            history,
        ) == Step::<bool, NomadCallbackNonceError>::Finish(Ok(true)),
    ensures
        tables.last().reserved.contains_key(digest_of_nonce(nonce)),
        tables.last().reserved[digest_of_nonce(nonce)] == (Reservation {
            backend_name: backend_name@,
            job_id: job_id@,
            allocation_id: allocation_id@,
            expires_at,
        }),
        tables.last().now == tables[0].now,
{
    let operation = reserving(
        database_url,
        backend_name,
        job_id,
        allocation_id,
        nonce,
        expires_at,
        maximum_retained_nonces,
    );
    database::digest_is_kept(crypto::sha256_array(encode_utf8(nonce)));
    next_is_done(operation, on_nonces(), tables, history, 0);
    next_is_done(operation, on_nonces(), tables, history, 1);
    next_is_done(operation, on_nonces(), tables, history, 2);
    next_is_done(operation, on_nonces(), tables, history, 3);
    next_is_done(operation, on_nonces(), tables, history, 4);
    next_is_done(operation, on_nonces(), tables, history, 5);
    end_is_reached(operation, on_nonces(), tables, history, 6);
}

/// A reserved nonce is not new to anyone until it expires: while there is room for another, who
/// asks for it is told so, and the reservation stays as it was made.
pub proof fn reserved_nonce_is_not_new(
    database_url: Seq<char>,
    backend_name: String,
    job_id: String,
    allocation_id: String,
    nonce: Seq<char>,
    expires_at: Moment,
    maximum_retained_nonces: nat,
    tables: Seq<NonceRows>,
    history: Seq<Reply>,
    other_url: Seq<char>,
    other_backend_name: String,
    other_job_id: String,
    other_allocation_id: String,
    other_expires_at: Moment,
    other_maximum: nat,
    later_tables: Seq<NonceRows>,
    later_history: Seq<Reply>,
)
    requires
        rows::ran(
            reserving(
                database_url,
                backend_name,
                job_id,
                allocation_id,
                nonce,
                expires_at,
                maximum_retained_nonces,
            ),
            on_nonces(),
            tables,
            history,
        ),
        callback_nonces::reserve_step(
            database_url,
            backend_name,
            job_id,
            allocation_id,
            nonce,
            expires_at,
            maximum_retained_nonces,
            history,
        ) == Step::<bool, NomadCallbackNonceError>::Finish(Ok(true)),
        later_tables[0].reserved == tables.last().reserved,
        expires_at > later_tables[0].now,
        later_tables[0].unexpired().len() < other_maximum,
        callback_nonces::inputs_valid(
            other_url,
            other_backend_name@,
            other_job_id@,
            other_allocation_id@,
            nonce,
            other_maximum,
        ),
        rows::ran(
            reserving(
                other_url,
                other_backend_name,
                other_job_id,
                other_allocation_id,
                nonce,
                other_expires_at,
                other_maximum,
            ),
            on_nonces(),
            later_tables,
            later_history,
        ),
    ensures
        callback_nonces::reserve_step(
            other_url,
            other_backend_name,
            other_job_id,
            other_allocation_id,
            nonce,
            other_expires_at,
            other_maximum,
            later_history,
        ) == Step::<bool, NomadCallbackNonceError>::Finish(Ok(false)),
        later_tables.last().reserved.contains_key(digest_of_nonce(nonce)),
        later_tables.last().reserved[digest_of_nonce(nonce)] == (Reservation {
            backend_name: backend_name@,
            job_id: job_id@,
            allocation_id: allocation_id@,
            expires_at,
        }),
{
    let operation = reserving(
        other_url,
        other_backend_name,
        other_job_id,
        other_allocation_id,
        nonce,
        other_expires_at,
        other_maximum,
    );
    new_nonce_is_reserved(
        database_url,
        backend_name,
        job_id,
        allocation_id,
        nonce,
        expires_at,
        maximum_retained_nonces,
        tables,
        history,
    );
    database::digest_is_kept(crypto::sha256_array(encode_utf8(nonce)));
    next_is_done(operation, on_nonces(), later_tables, later_history, 0);
    next_is_done(operation, on_nonces(), later_tables, later_history, 1);
    next_is_done(operation, on_nonces(), later_tables, later_history, 2);
    assert(later_tables[3].reserved.contains_key(digest_of_nonce(nonce)));
    next_is_done(operation, on_nonces(), later_tables, later_history, 3);
    next_is_done(operation, on_nonces(), later_tables, later_history, 4);
    next_is_done(operation, on_nonces(), later_tables, later_history, 5);
    end_is_reached(operation, on_nonces(), later_tables, later_history, 6);
}

/// Where fewer nonces are retained than may be, one that is not among them is reserved and reported
/// as new, and one that is among them is not, and stays. Where as many are retained as may be, the
/// request fails and nothing is reserved. Either way those that expired are forgotten, and no other.
pub proof fn nonces_are_reserved_while_there_is_room(
    database_url: Seq<char>,
    backend_name: String,
    job_id: String,
    allocation_id: String,
    nonce: Seq<char>,
    expires_at: Moment,
    maximum_retained_nonces: nat,
    tables: Seq<NonceRows>,
    history: Seq<Reply>,
)
    requires
        !text::is_blank(database_url),
        callback_nonces::is_nomad_name(backend_name@),
        callback_nonces::is_nomad_name(job_id@),
        callback_nonces::is_nomad_name(allocation_id@),
        database::is_bounded(nonce, 256),
        !text::has_control(nonce),
        0 < maximum_retained_nonces <= i64::MAX,
        rows::ran(
            reserving(
                database_url,
                backend_name,
                job_id,
                allocation_id,
                nonce,
                expires_at,
                maximum_retained_nonces,
            ),
            on_nonces(),
            tables,
            history,
        ),
    ensures
        ({
            let step = callback_nonces::reserve_step(
                database_url,
                backend_name,
                job_id,
                allocation_id,
                nonce,
                expires_at,
                maximum_retained_nonces,
                history,
            );
            let retained = tables[0].unexpired();
            let digest = digest_of_nonce(nonce);
            let after = tables.last().reserved;
            &&& tables.last().now == tables[0].now
            &&& if retained.len() >= maximum_retained_nonces {
                step matches Step::Finish(Err(_)) && after == retained
            } else if retained.contains_key(digest) {
                step == Step::<bool, NomadCallbackNonceError>::Finish(Ok(false)) && after == retained
            } else {
                step == Step::<bool, NomadCallbackNonceError>::Finish(Ok(true)) && after
                    == retained.insert(
                    digest,
                    Reservation {
                        backend_name: backend_name@,
                        job_id: job_id@,
                        allocation_id: allocation_id@,
                        expires_at,
                    },
                )
            }
        }),
{
    let operation = reserving(
        database_url,
        backend_name,
        job_id,
        allocation_id,
        nonce,
        expires_at,
        maximum_retained_nonces,
    );
    database::digest_is_kept(crypto::sha256_array(encode_utf8(nonce)));
    next_is_done(operation, on_nonces(), tables, history, 0);
    next_is_done(operation, on_nonces(), tables, history, 1);
    next_is_done(operation, on_nonces(), tables, history, 2);
    next_is_done(operation, on_nonces(), tables, history, 3);
    if tables[0].unexpired().len() >= maximum_retained_nonces {
        end_is_reached(operation, on_nonces(), tables, history, 4);
    } else {
        next_is_done(operation, on_nonces(), tables, history, 4);
        next_is_done(operation, on_nonces(), tables, history, 5);
        end_is_reached(operation, on_nonces(), tables, history, 6);
    }
}

} // verus!
