//! The ownership of the gateway on the rows of its leases: one owner of a kind at a time, and who
//! lost the ownership never has it back.

use crate::service::singleton_ownership::{
    self, AcquireReply, LeaseReply, OwnershipStatement, SingletonOwnership,
    SingletonOwnershipError, SingletonOwnershipFailure, DAEMON_OWNER_KIND,
    LOCAL_EXECUTOR_OWNER_KIND,
};
use crate::text;
use crate::time::Span;
use vstd::prelude::*;

verus! {

/// A lease: who holds it, as which generation, and until when, in milliseconds.
pub struct Lease {
    pub owner_token: Seq<char>,
    pub generation: i64,
    pub expires_at: int,
}

/// The leases by the kinds of owners.
pub type Leases = Map<Seq<char>, Lease>;

/// A kind of owner has a lease that has not lapsed.
pub open spec fn is_held(leases: Leases, kind: Seq<char>, now: int) -> bool {
    leases.contains_key(kind) && leases[kind].expires_at > now
}

/// The lease of a kind is that of an owner and a generation.
pub open spec fn is_lease_of(
    leases: Leases,
    kind: Seq<char>,
    owner_token: Seq<char>,
    generation: i64,
) -> bool {
    &&& leases.contains_key(kind)
    &&& leases[kind].owner_token == owner_token
    &&& leases[kind].generation == generation
}

/// The lease is the one that an ownership rests on.
pub open spec fn belongs_to(leases: Leases, ownership: SingletonOwnership) -> bool {
    is_lease_of(leases, ownership.owner_kind@, ownership.owner_token@, ownership.generation)
}

/// The generation that comes next.
pub open spec fn next_generation(leases: Leases, kind: Seq<char>) -> int {
    if leases.contains_key(kind) {
        leases[kind].generation + 1
    } else {
        1
    }
}

/// What the database answers to who asks for a lease.
pub open spec fn acquire_reply(
    leases: Leases,
    statement: OwnershipStatement,
    now: int,
) -> AcquireReply {
    match statement {
        OwnershipStatement::Acquire { owner_kind, .. } => if is_held(leases, owner_kind@, now) {
            AcquireReply::NoRow
        } else if next_generation(leases, owner_kind@) > i64::MAX {
            AcquireReply::Refused
        } else {
            AcquireReply::Generation(next_generation(leases, owner_kind@) as i64)
        },
        _ => AcquireReply::Refused,
    }
}

/// What the database answers to who renews or looks for a lease.
pub open spec fn lease_reply(
    leases: Leases,
    statement: OwnershipStatement,
    now: int,
) -> LeaseReply {
    match statement {
        OwnershipStatement::Renew { owner_kind, owner_token, generation, .. }
        | OwnershipStatement::Verify { owner_kind, owner_token, generation } => if is_lease_of(
            leases,
            owner_kind@,
            owner_token@,
            generation,
        ) && is_held(leases, owner_kind@, now) {
            LeaseReply::Rows(1)
        } else {
            LeaseReply::Rows(0)
        },
        _ => LeaseReply::Refused,
    }
}

/// The leases once a statement was done.
pub open spec fn leases_after(leases: Leases, statement: OwnershipStatement, now: int) -> Leases {
    match statement {
        OwnershipStatement::Acquire { owner_kind, owner_token, milliseconds } =>
        match acquire_reply(leases, statement, now) {
            AcquireReply::Generation(generation) => leases.insert(
                owner_kind@,
                Lease {
                    owner_token: owner_token@,
                    generation,
                    expires_at: now + milliseconds,
                },
            ),
            _ => leases,
        },
        OwnershipStatement::Renew { owner_kind, owner_token, generation, milliseconds } =>
        if lease_reply(leases, statement, now) == LeaseReply::Rows(1) {
            leases.insert(
                owner_kind@,
                Lease {
                    owner_token: owner_token@,
                    generation,
                    expires_at: now + milliseconds,
                },
            )
        } else {
            leases
        },
        OwnershipStatement::Verify { .. } => leases,
        OwnershipStatement::Release { owner_kind, owner_token, generation } => if is_lease_of(
            leases,
            owner_kind@,
            owner_token@,
            generation,
        ) {
            leases.remove(owner_kind@)
        } else {
            leases
        },
    }
}

/// An ownership was acquired: its statement was done on the leases, and the reply granted it.
pub open spec fn is_acquired(
    ownership: SingletonOwnership,
    database_url: Seq<char>,
    kind: &'static str,
    lease: Span,
    owner_token: String,
    leases: Leases,
    now: int,
) -> bool {
    &&& singleton_ownership::acquire_request(database_url, kind, lease, owner_token) is Ok
    &&& acquire_reply(
        leases,
        singleton_ownership::acquire_request(database_url, kind, lease, owner_token)->Ok_0,
        now,
    ) matches AcquireReply::Generation(generation) && singleton_ownership::is_granted(
        ownership,
        database_url,
        kind,
        owner_token@,
        lease,
        generation,
    )
}

/// The leases once an ownership was asked for.
pub open spec fn after_acquire(
    database_url: Seq<char>,
    kind: &'static str,
    lease: Span,
    owner_token: String,
    leases: Leases,
    now: int,
) -> Leases {
    leases_after(
        leases,
        singleton_ownership::acquire_request(database_url, kind, lease, owner_token)->Ok_0,
        now,
    )
}

/// An acquired ownership can be renewed, and the lease is its own.
proof fn acquired_ownership_has_a_lease(
    ownership: SingletonOwnership,
    database_url: Seq<char>,
    kind: &'static str,
    lease: Span,
    owner_token: String,
    leases: Leases,
    now: int,
)
    requires
        is_acquired(ownership, database_url, kind, lease, owner_token, leases, now),
    ensures
        singleton_ownership::is_lease(ownership.database_url@, ownership.lease_duration),
        ownership.renewal_request() is Ok,
        belongs_to(
            after_acquire(database_url, kind, lease, owner_token, leases, now),
            ownership,
        ),
{
    singleton_ownership::fencing_keeps_the_database(
        database_url,
        kind@,
        owner_token@,
        ownership.generation,
    );
    let i = choose|i: int|
        0 <= i < database_url.len() && !text::is_space(#[trigger] database_url[i]);
    assert(ownership.database_url@[i] == database_url[i]);
}

/// While the lease of a daemon has not lapsed, another that asks for it is told that it is held,
/// whoever asks and for however long, and the lease stays. The owner is found to hold it, and
/// renews it. A local executor is answered as if there were no such lease.
pub proof fn held_lease_is_contended(
    ownership: SingletonOwnership,
    database_url: Seq<char>,
    lease: Span,
    owner_token: String,
    leases: Leases,
    then: int,
    other_url: Seq<char>,
    other_lease: Span,
    other_token: String,
    readable: bool,
    now: int,
)
    requires
        is_acquired(
            ownership,
            database_url,
            DAEMON_OWNER_KIND,
            lease,
            owner_token,
            leases,
            then,
        ),
        now < then + singleton_ownership::milliseconds(lease),
        singleton_ownership::is_lease(other_url, other_lease),
    ensures
        ({
            let held = after_acquire(
                database_url,
                DAEMON_OWNER_KIND,
                lease,
                owner_token,
                leases,
                then,
            );
            let other = singleton_ownership::acquire_request(
                other_url,
                DAEMON_OWNER_KIND,
                other_lease,
                other_token,
            )->Ok_0;
            let executor = singleton_ownership::acquire_request(
                other_url,
                LOCAL_EXECUTOR_OWNER_KIND,
                other_lease,
                other_token,
            )->Ok_0;
            &&& singleton_ownership::acquire_failure(
                other_url,
                other_lease,
                acquire_reply(held, other, now),
                readable,
            ) == Some(SingletonOwnershipFailure::Contended)
            &&& leases_after(held, other, now) == held
            &&& ownership.verification(
                lease_reply(held, ownership.verification_request(), now),
            ) is Ok
            &&& ownership.renewal(
                lease_reply(held, ownership.renewal_request()->Ok_0, now),
            ) is Ok
            &&& acquire_reply(held, executor, now) == acquire_reply(leases, executor, now)
        }),
{
    reveal_strlit("daemon");
    reveal_strlit("local-executor");
    assert(DAEMON_OWNER_KIND@.len() == 6);
    assert(LOCAL_EXECUTOR_OWNER_KIND@.len() == 14);
    acquired_ownership_has_a_lease(
        ownership,
        database_url,
        DAEMON_OWNER_KIND,
        lease,
        owner_token,
        leases,
        then,
    );
}

/// Once the lease of an owner has lapsed, who asks for it has it, as the next generation.
pub proof fn lapsed_lease_passes_on(
    ownership: SingletonOwnership,
    lapsed: Leases,
    other_url: Seq<char>,
    other_lease: Span,
    other_token: String,
    now: int,
)
    requires
        belongs_to(lapsed, ownership),
        !is_held(lapsed, ownership.owner_kind@, now),
        ownership.generation < i64::MAX,
        singleton_ownership::is_lease(other_url, other_lease),
    ensures
        ({
            let statement = singleton_ownership::acquire_request(
                other_url,
                ownership.owner_kind,
                other_lease,
                other_token,
            )->Ok_0;
            let reply = acquire_reply(lapsed, statement, now);
            &&& reply == AcquireReply::Generation((ownership.generation + 1) as i64)
            &&& singleton_ownership::acquire_failure(other_url, other_lease, reply, true) is None
            &&& is_lease_of(
                leases_after(lapsed, statement, now),
                ownership.owner_kind@,
                other_token@,
                (ownership.generation + 1) as i64,
            )
        }),
{
}

/// An acquired lease that was not renewed lapses when its time is over.
pub proof fn lease_lapses(
    ownership: SingletonOwnership,
    database_url: Seq<char>,
    kind: &'static str,
    lease: Span,
    owner_token: String,
    leases: Leases,
    then: int,
    now: int,
)
    requires
        is_acquired(ownership, database_url, kind, lease, owner_token, leases, then),
    ensures
        ({
            let after = after_acquire(database_url, kind, lease, owner_token, leases, then);
            &&& belongs_to(after, ownership)
            &&& is_held(after, kind@, now) <==> now < then + singleton_ownership::milliseconds(
                lease,
            )
        }),
{
}

/// A statement does not ask for a lease in the name of an owner.
pub open spec fn is_no_acquisition_by(
    statement: OwnershipStatement,
    owner_token: Seq<char>,
) -> bool {
    match statement {
        OwnershipStatement::Acquire { owner_token: other_token, .. } => other_token@
            != owner_token,
        _ => true,
    }
}

/// Leases go from one state to the next by statements, at whatever times, none of which asks for a
/// lease in the name of an owner again.
pub open spec fn go_on_without(
    states: Seq<Leases>,
    done: Seq<(OwnershipStatement, int)>,
    owner_token: Seq<char>,
) -> bool {
    &&& states.len() == done.len() + 1
    &&& forall|i: int|
        0 <= i < done.len() ==> {
            &&& is_no_acquisition_by((#[trigger] done[i]).0, owner_token)
            &&& states[i + 1] == leases_after(states[i], done[i].0, done[i].1)
        }
}

proof fn lost_lease_stays_lost(
    states: Seq<Leases>,
    done: Seq<(OwnershipStatement, int)>,
    ownership: SingletonOwnership,
    place: int,
)
    requires
        go_on_without(states, done, ownership.owner_token@),
        0 <= place < states.len(),
        !belongs_to(states[0], ownership),
    ensures
        !belongs_to(states[place], ownership),
    decreases place,
{
    if place > 0 {
        lost_lease_stays_lost(states, done, ownership, place - 1);
        assert(is_no_acquisition_by(done[place - 1].0, ownership.owner_token@));
        assert(states[place - 1 + 1] == leases_after(
            states[place - 1],
            done[place - 1].0,
            done[place - 1].1,
        ));
    }
}

/// Once the lease of an owner has lapsed and another has acquired it, the first owner is fenced for
/// good: its renewals and its look for the lease fail so, at any time and whatever was done
/// since, renewals by either owner among it. Such a renewal leaves the leases as they are, so that
/// the lease of the other owner is neither extended nor shortened, and while that has not lapsed
/// the other owner is found to hold it.
pub proof fn superseded_owner_is_fenced(
    first: SingletonOwnership,
    first_url: Seq<char>,
    first_lease: Span,
    first_token: String,
    kind: &'static str,
    leases: Leases,
    then: int,
    lapsed: Leases,
    second: SingletonOwnership,
    second_url: Seq<char>,
    second_lease: Span,
    second_token: String,
    taken: int,
    states: Seq<Leases>,
    done: Seq<(OwnershipStatement, int)>,
    now: int,
)
    requires
        is_acquired(first, first_url, kind, first_lease, first_token, leases, then),
        belongs_to(lapsed, first),
        !is_held(lapsed, kind@, taken),
        is_acquired(second, second_url, kind, second_lease, second_token, lapsed, taken),
        second_token@ != first_token@,
        states.len() > 0,
        states[0] == after_acquire(second_url, kind, second_lease, second_token, lapsed, taken),
        go_on_without(states, done, first_token@),
    ensures
        ({
            let current = states.last();
            let renewal = first.renewal_request()->Ok_0;
            let fenced = Err::<(), SingletonOwnershipError>(
                SingletonOwnershipError(SingletonOwnershipFailure::Fenced),
            );
            let found = lease_reply(
                leases_after(current, renewal, now),
                second.verification_request(),
                now,
            );
            &&& second.generation == first.generation + 1
            &&& first.renewal_request() is Ok
            &&& first.renewal(lease_reply(current, renewal, now)) == fenced
            &&& first.verification(lease_reply(current, first.verification_request(), now))
                == fenced
            &&& leases_after(current, renewal, now) == current
            &&& belongs_to(current, second) && is_held(current, kind@, now)
                ==> second.verification(found) is Ok
        }),
        belongs_to(states[0], second),
        is_held(states[0], kind@, now) <==> now < taken + singleton_ownership::milliseconds(
            second_lease,
        ),
{
    acquired_ownership_has_a_lease(
        first,
        first_url,
        kind,
        first_lease,
        first_token,
        leases,
        then,
    );
    lost_lease_stays_lost(states, done, first, states.len() - 1);
}

/// An owner that renews its lease in time holds it for the whole of its duration from then on, and
/// nothing else changes.
pub proof fn renewed_lease_holds_on(
    ownership: SingletonOwnership,
    leases: Leases,
    renewed: int,
    now: int,
)
    requires
        belongs_to(leases, ownership),
        is_held(leases, ownership.owner_kind@, renewed),
        singleton_ownership::is_lease(ownership.database_url@, ownership.lease_duration),
    ensures
        ownership.renewal_request() matches Ok(statement) && {
            let after = leases_after(leases, statement, renewed);
            let lasts = ownership.lease_duration.seconds * 1000
                + ownership.lease_duration.nanoseconds / 1_000_000;
            &&& ownership.renewal(lease_reply(leases, statement, renewed)) is Ok
            &&& belongs_to(after, ownership)
            &&& is_held(after, ownership.owner_kind@, now) <==> now < renewed + lasts
            &&& after.remove(ownership.owner_kind@) == leases.remove(ownership.owner_kind@)
        },
{
    let statement = ownership.renewal_request()->Ok_0;
    let after = leases_after(leases, statement, renewed);
    assert(after.remove(ownership.owner_kind@) =~= leases.remove(ownership.owner_kind@));
}

/// An owner whose lease has lapsed, or that has none, cannot renew it and is told so when it looks
/// for it.
pub proof fn lapsed_owner_is_fenced(ownership: SingletonOwnership, leases: Leases, now: int)
    requires
        !(belongs_to(leases, ownership) && is_held(leases, ownership.owner_kind@, now)),
        singleton_ownership::is_lease(ownership.database_url@, ownership.lease_duration),
    ensures
        ({
            let fenced = Err::<(), SingletonOwnershipError>(
                SingletonOwnershipError(SingletonOwnershipFailure::Fenced),
            );
            &&& ownership.renewal_request() matches Ok(statement) && ownership.renewal(
                lease_reply(leases, statement, now),
            ) == fenced && leases_after(leases, statement, now) == leases
            &&& ownership.verification(
                lease_reply(leases, ownership.verification_request(), now),
            ) == fenced
        }),
{
}

/// Once an owner released its lease nobody has it, and whoever asks for it next gets it, for the
/// whole of the duration asked for; the leases of other kinds stay. An owner that no longer has the
/// lease releases nothing.
pub proof fn released_lease_is_free(
    ownership: SingletonOwnership,
    leases: Leases,
    released: int,
    other_url: Seq<char>,
    other_lease: Span,
    other_token: String,
    readable: bool,
    now: int,
)
    requires
        singleton_ownership::is_lease(other_url, other_lease),
        readable,
    ensures
        ({
            let after = leases_after(leases, ownership.release_request(), released);
            let kind = ownership.owner_kind;
            if belongs_to(leases, ownership) {
                &&& after == leases.remove(kind@)
                &&& singleton_ownership::acquire_request(
                    other_url,
                    kind,
                    other_lease,
                    other_token,
                ) matches Ok(statement) && {
                    let taken = leases_after(after, statement, now);
                    let lasts = other_lease.seconds * 1000 + other_lease.nanoseconds / 1_000_000;
                    &&& acquire_reply(after, statement, now) == AcquireReply::Generation(1)
                    &&& singleton_ownership::acquire_failure(
                        other_url,
                        other_lease,
                        AcquireReply::Generation(1),
                        readable,
                    ) is None
                    &&& is_lease_of(taken, kind@, other_token@, 1)
                    &&& taken[kind@].expires_at == now + lasts
                }
            } else {
                after == leases
            }
        }),
{
}

} // verus!
