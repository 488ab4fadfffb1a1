//! Leases on their rows: every path that was asked for is held, nothing else is touched, and what is
//! retained stays within its bounds.

use crate::persistence::database::{
    self, BuildRequestRow, DatabaseFault, LeaseRow, Reply, SessionRow, Statement, Step,
    WorkerLimits,
};
use crate::persistence::leases::{
    self, StoreLeaseError, StoreLeaseFailure, StoreLeaseOwnerKind, StoreLeasePurpose,
    StoreLeaseRecord, StoreLeaseState,
};
use crate::persistence::rows::{self, end_is_reached, next_is_done};
use crate::persistence::{build_requests, sessions};
use crate::text;
use crate::time::Span;
use vstd::prelude::*;

verus! {

/// Leases, requests and sessions under their names.
pub struct LeaseRows {
    pub leases: Map<Seq<char>, LeaseRow>,
    pub requests: Map<Seq<char>, BuildRequestRow>,
    pub sessions: Map<Seq<char>, SessionRow>,
}

/// A row is a new lease of an owner on a path, which holds, and expires after so many seconds if at
/// all.
pub open spec fn is_made(
    row: LeaseRow,
    lease_id: Seq<char>,
    owner_kind: Seq<char>,
    owner_id: Seq<char>,
    store_path: Seq<char>,
    purpose: Seq<char>,
    expires_after_seconds: Option<u64>,
    nar_size: Option<i64>,
) -> bool {
    &&& row.lease_id@ == lease_id
    &&& row.owner_kind@ == owner_kind
    &&& row.owner_id@ == owner_id
    &&& row.store_path@ == store_path
    &&& row.purpose@ == purpose
    &&& row.state@ == "active"@
    &&& row.released_at is None
    &&& match expires_after_seconds {
        Some(seconds) => row.expires_at is Some && row.expires_at->0 - row.created_at == seconds
            * 1_000_000,
        None => row.expires_at is None,
    }
    &&& row.nar_size == nar_size
}

/// A row is another one after its release.
pub open spec fn is_released(row: LeaseRow, before: LeaseRow) -> bool {
    &&& row == (LeaseRow { state: row.state, released_at: row.released_at, ..before })
    &&& row.state@ == "released"@
    &&& row.released_at is Some
    &&& row.released_at->0 >= before.created_at
}

/// A lease of a request on one of its outputs.
pub open spec fn is_output_of(row: LeaseRow, request_id: Seq<char>) -> bool {
    &&& row.owner_kind@ == "request"@
    &&& row.owner_id@ == request_id
    &&& row.purpose@ == "output"@
}

/// An active lease that retains a path.
pub open spec fn holds(table: Map<Seq<char>, LeaseRow>, id: Seq<char>, path: Seq<char>) -> bool {
    &&& table.contains_key(id)
    &&& table[id].state@ == "active"@
    &&& table[id].purpose@ == "derivation"@ || table[id].purpose@ == "input"@
    &&& table[id].store_path@ == path
}

/// A path is retained.
pub open spec fn is_retained(table: Map<Seq<char>, LeaseRow>, path: Seq<char>) -> bool {
    exists|id: Seq<char>| #[trigger] holds(table, id, path)
}

/// Paths that are retained, with their sizes.
pub open spec fn retained(table: Map<Seq<char>, LeaseRow>) -> Map<Seq<char>, int> {
    Map::new(
        |path: Seq<char>| is_retained(table, path),
        |path: Seq<char>|
            table[choose|id: Seq<char>| #[trigger] holds(table, id, path)].nar_size->0 as int,
    )
}

/// Leases that retain one path have its size.
pub open spec fn sizes_agree(table: Map<Seq<char>, LeaseRow>) -> bool {
    &&& forall|id: Seq<char>, path: Seq<char>| #[trigger]
        holds(table, id, path) ==> table[id].nar_size is Some && table[id].nar_size->0 >= 0
    &&& forall|one: Seq<char>, other: Seq<char>, path: Seq<char>|
        #![trigger holds(table, one, path), holds(table, other, path)]
        holds(table, one, path) && holds(table, other, path) ==> table[one].nar_size
            == table[other].nar_size
}

/// The sum of sizes.
pub open spec fn total(sizes: Map<Seq<char>, int>) -> int
    decreases sizes.dom().len(),
{
    if sizes.dom().finite() && sizes.dom().len() > 0 {
        let path = sizes.dom().choose();
        sizes[path] + total(sizes.remove(path))
    } else {
        0
    }
}

/// Rows are the sizes of retained paths among those asked for: of each that is retained.
pub open spec fn are_sizes(
    sizes: Seq<(String, i64)>,
    table: Map<Seq<char>, LeaseRow>,
    store_paths: Seq<String>,
) -> bool {
    &&& forall|i: int|
        0 <= i < sizes.len() ==> retained(table).contains_key((#[trigger] sizes[i]).0@)
            && retained(table)[sizes[i].0@] == sizes[i].1
    &&& forall|i: int|
        0 <= i < store_paths.len() && retained(table).contains_key((#[trigger] store_paths[i])@)
            ==> is_sized(sizes, store_paths[i]@)
}

/// A path is among sizes.
pub open spec fn is_sized(sizes: Seq<(String, i64)>, path: Seq<char>) -> bool {
    exists|i: int| 0 <= i < sizes.len() && (#[trigger] sizes[i]).0@ == path
}

/// What statements do to leases.
pub open spec fn leases_change(
    before: LeaseRows,
    statement: Statement,
    reply: Reply,
    after: LeaseRows,
) -> bool {
    match statement {
        Statement::Begin | Statement::Commit | Statement::LockRetainedInputs { .. } => reply is Done
            && after == before,
        Statement::ReadBuildRequest { request_id } | Statement::HoldBuildRequest { request_id } => {
            after == before && if before.requests.contains_key(request_id@) {
                reply == Reply::BuildRequest(Some(before.requests[request_id@]))
            } else {
                reply == Reply::BuildRequest(None)
            }
        },
        Statement::FindBuildRequest { request_id } => after == before && reply == Reply::Found(
            before.requests.contains_key(request_id@),
        ),
        Statement::HoldSession { session_id } => after == before
            && if before.sessions.contains_key(session_id@) {
            reply == Reply::Session(Some(before.sessions[session_id@]))
        } else {
            reply == Reply::Session(None)
        },
        Statement::InsertLease {
            lease_id,
            owner_kind,
            owner_id,
            store_path,
            purpose,
            expires_after_seconds,
            nar_size,
        } => if before.leases.contains_key(lease_id@) {
            reply == Reply::Failed(DatabaseFault::UniqueViolation) && after == before
        } else {
            match reply {
                Reply::Lease(Some(row)) => {
                    &&& is_made(
                        row,
                        lease_id@,
                        owner_kind@,
                        owner_id@,
                        store_path@,
                        purpose@,
                        expires_after_seconds,
                        nar_size,
                    )
                    &&& after == (LeaseRows {
                        leases: before.leases.insert(lease_id@, row),
                        ..before
                    })
                },
                _ => false,
            }
        },
        Statement::SumRetainedSizes => after == before && match reply {
            Reply::Count(sum) => sum == total(retained(before.leases)),
            _ => false,
        },
        Statement::ReadRetainedSizes { store_paths } => after == before && match reply {
            Reply::Sizes(sizes) => are_sizes(sizes@, before.leases, store_paths@),
            _ => false,
        },
        Statement::LockRequestOutputLeases { request_id } => after == before && match reply {
            Reply::Leases(listed) => {
                &&& forall|i: int|
                    0 <= i < listed@.len() ==> before.leases.contains_key(
                        (#[trigger] listed@[i]).lease_id@,
                    ) && before.leases[listed@[i].lease_id@] == listed@[i] && is_output_of(
                        listed@[i],
                        request_id@,
                    )
                &&& listed@.len() == 0 ==> forall|id: Seq<char>| #[trigger]
                    before.leases.contains_key(id) ==> !is_output_of(
                        before.leases[id],
                        request_id@,
                    )
            },
            _ => false,
        },
        Statement::ReadLease { lease_id } | Statement::LockLease { lease_id } => after == before
            && if before.leases.contains_key(lease_id@) {
            reply == Reply::Lease(Some(before.leases[lease_id@]))
        } else {
            reply == Reply::Lease(None)
        },
        Statement::ReleaseActiveLease { lease_id } => if before.leases.contains_key(lease_id@)
            && before.leases[lease_id@].state@ == "active"@ {
            match reply {
                Reply::Lease(Some(row)) => is_released(row, before.leases[lease_id@]) && after == (
                LeaseRows { leases: before.leases.insert(lease_id@, row), ..before }),
                _ => false,
            }
        } else {
            reply == Reply::Lease(None) && after == before
        },
        _ => true,
    }
}

/// The model of the leases.
pub open spec fn on_leases() -> spec_fn(LeaseRows, Statement, Reply, LeaseRows) -> bool {
    |before: LeaseRows, statement: Statement, reply: Reply, after: LeaseRows|
        leases_change(before, statement, reply, after)
}

/// Leases to make are complete and in bounds, and name no lease and no path twice.
pub open spec fn may_be_made(
    asked: Seq<(String, String, u64)>,
    request_id: Seq<char>,
    limits: WorkerLimits,
) -> bool {
    &&& database::is_component(request_id)
    &&& forall|i: int|
        0 <= i < asked.len() ==> database::is_component((#[trigger] asked[i]).0@)
            && leases::is_store_path(asked[i].1@, limits.maximum_store_path_bytes as nat)
    &&& forall|i: int, j: int|
        0 <= i < j < asked.len() ==> (#[trigger] asked[i]).0@ != (#[trigger] asked[j]).0@
            && asked[i].1@ != asked[j].1@
}

/// None of the names of leases to make is taken.
pub open spec fn are_free(asked: Seq<(String, String, u64)>, table: LeaseRows) -> bool {
    forall|i: int| 0 <= i < asked.len() ==> !table.leases.contains_key((#[trigger] asked[i]).0@)
}

/// A request is there and can be read.
pub open spec fn is_there(table: LeaseRows, request_id: Seq<char>, limits: WorkerLimits) -> bool {
    &&& table.requests.contains_key(request_id)
    &&& build_requests::request_of(
        table.requests[request_id],
        limits.maximum_store_path_bytes as nat,
    ) is Some
}

/// For each name and path that was asked for there is a lease of the request under that name and on
/// that very path, which holds, and which is what was returned. All other rows are as before.
pub open spec fn are_made(
    before: LeaseRows,
    after: LeaseRows,
    asked: Seq<(String, String, u64)>,
    request_id: Seq<char>,
    purpose: StoreLeasePurpose,
    expires_after_seconds: Option<u64>,
    limits: WorkerLimits,
    made: Seq<StoreLeaseRecord>,
) -> bool {
    &&& made.len() == asked.len()
    &&& forall|i: int|
        0 <= i < asked.len() ==> {
            let row = after.leases[(#[trigger] asked[i]).0@];
            &&& after.leases.contains_key(asked[i].0@)
            &&& is_made(
                row,
                asked[i].0@,
                "request"@,
                request_id,
                asked[i].1@,
                purpose.spec_name()@,
                expires_after_seconds,
                if purpose is Derivation || purpose is Input {
                    Some(asked[i].2 as i64)
                } else {
                    None
                },
            )
            &&& leases::lease_of(row, limits.maximum_store_path_bytes as nat) == Some(made[i])
        }
    &&& forall|id: Seq<char>| #[trigger]
        after.leases.contains_key(id) ==> before.leases.contains_key(id) || is_asked(asked, id)
    &&& forall|id: Seq<char>| #[trigger]
        before.leases.contains_key(id) ==> after.leases.contains_key(id) && after.leases[id]
            == before.leases[id]
    &&& after.requests == before.requests
    &&& after.sessions == before.sessions
}

/// A lease was asked for under a name.
pub open spec fn is_asked(asked: Seq<(String, String, u64)>, id: Seq<char>) -> bool {
    exists|i: int| 0 <= i < asked.len() && (#[trigger] asked[i]).0@ == id
}

proof fn names_differ()
    ensures
        "active"@.len() == 6,
        "released"@.len() == 8,
        "request"@.len() == 7 && "request"@[0] == 'r',
        "session"@.len() == 7 && "session"@[0] == 's',
        "derivation"@.len() == 10,
        "input"@.len() == 5,
        "output"@.len() == 6,
        "transfer"@.len() == 8,
{
    reveal_strlit("active");
    reveal_strlit("released");
    reveal_strlit("request");
    reveal_strlit("session");
    reveal_strlit("derivation");
    reveal_strlit("input");
    reveal_strlit("output");
    reveal_strlit("transfer");
}

/// A new lease can be read.
proof fn new_lease_is_read(
    row: LeaseRow,
    lease_id: Seq<char>,
    owner_kind: StoreLeaseOwnerKind,
    owner_id: Seq<char>,
    store_path: Seq<char>,
    purpose: StoreLeasePurpose,
    expires_after_seconds: Option<u64>,
    nar_size: Option<i64>,
    maximum_path_bytes: nat,
)
    requires
        is_made(
            row,
            lease_id,
            owner_kind.spec_name()@,
            owner_id,
            store_path,
            purpose.spec_name()@,
            expires_after_seconds,
            nar_size,
        ),
        leases::is_lease(lease_id, owner_id, store_path, maximum_path_bytes),
        purpose is Output <==> expires_after_seconds is Some,
        nar_size is Some ==> nar_size->0 >= 0,
    ensures
        leases::lease_of(row, maximum_path_bytes) is Some,
{
    names_differ();
}

/// Insertions that were let in are made one after the other, and are all made in the end.
proof fn rest_is_inserted(
    operation: spec_fn(Seq<Reply>) -> Step<Seq<StoreLeaseRecord>, StoreLeaseError>,
    tables: Seq<LeaseRows>,
    history: Seq<Reply>,
    place: int,
    request_id: String,
    purpose: StoreLeasePurpose,
    asked: Seq<(String, String, u64)>,
    expires_after_seconds: Option<u64>,
    limits: WorkerLimits,
    count: nat,
    made: Seq<StoreLeaseRecord>,
)
    requires
        rows::ran(operation, on_leases(), tables, history),
        0 <= place,
        count <= asked.len(),
        place + count <= history.len(),
        may_be_made(asked, request_id@, limits),
        are_free(asked, tables[place]),
        purpose is Output <==> expires_after_seconds is Some,
        forall|i: int| 0 <= i < asked.len() ==> (#[trigger] asked[i]).2 <= i64::MAX,
        are_made(
            tables[place],
            tables[place + count],
            asked.take(count as int),
            request_id@,
            purpose,
            expires_after_seconds,
            limits,
            made,
        ),
        leases::replied_leases(
            history.subrange(place, place + count),
            StoreLeaseFailure::Conflict,
            limits.maximum_store_path_bytes as nat,
        ) == Ok::<Seq<StoreLeaseRecord>, StoreLeaseFailure>(made),
        forall|i: int|
            place <= i <= history.len() ==> #[trigger] operation(history.take(i))
                == leases::insertion_step(
                place,
                request_id,
                purpose,
                asked,
                expires_after_seconds,
                limits,
                history.take(i),
            ),
    ensures
        operation(history) matches Step::Finish(Ok(all)) && are_made(
            tables[place],
            tables.last(),
            asked,
            request_id@,
            purpose,
            expires_after_seconds,
            limits,
            all,
        ),
    decreases asked.len() - count,
{
    let at = place + count;
    let maximum = limits.maximum_store_path_bytes as nat;
    let begun = history.take(at);
    assert(begun.subrange(place, at) =~= history.subrange(place, at));
    assert(asked.take(asked.len() as int) =~= asked);
    if count < asked.len() {
        next_is_done(operation, on_leases(), tables, history, at);
        one_is_inserted(
            tables[place],
            tables[at],
            tables[at + 1],
            history[at],
            request_id,
            purpose,
            asked,
            expires_after_seconds,
            limits,
            count,
            made,
        );
        let row = history[at]->Lease_0->0;
        let longer = made.push(leases::lease_of(row, maximum)->0);
        let replies = history.subrange(place, at + 1);
        assert(replies.drop_last() =~= history.subrange(place, at));
        assert(replies.last() == history[at]);
        rest_is_inserted(
            operation,
            tables,
            history,
            place,
            request_id,
            purpose,
            asked,
            expires_after_seconds,
            limits,
            count + 1,
            longer,
        );
    } else {
        next_is_done(operation, on_leases(), tables, history, at);
        let ended = history.take(at + 1);
        assert(ended.subrange(place, at) =~= history.subrange(place, at));
        assert(ended[at] == history[at]);
        end_is_reached(operation, on_leases(), tables, history, at + 1);
    }
}

proof fn one_is_inserted(
    first: LeaseRows,
    before: LeaseRows,
    after: LeaseRows,
    reply: Reply,
    request_id: String,
    purpose: StoreLeasePurpose,
    asked: Seq<(String, String, u64)>,
    expires_after_seconds: Option<u64>,
    limits: WorkerLimits,
    count: nat,
    made: Seq<StoreLeaseRecord>,
)
    requires
        count < asked.len(),
        may_be_made(asked, request_id@, limits),
        are_free(asked, first),
        purpose is Output <==> expires_after_seconds is Some,
        asked[count as int].2 <= i64::MAX,
        are_made(
            first,
            before,
            asked.take(count as int),
            request_id@,
            purpose,
            expires_after_seconds,
            limits,
            made,
        ),
        leases_change(
            before,
            Statement::InsertLease {
                lease_id: asked[count as int].0,
                owner_kind: StoreLeaseOwnerKind::Request.spec_name(),
                owner_id: request_id,
                store_path: asked[count as int].1,
                purpose: purpose.spec_name(),
                expires_after_seconds,
                nar_size: if purpose.is_retained() {
                    Some(asked[count as int].2 as i64)
                } else {
                    None
                },
            },
            reply,
            after,
        ),
    ensures
        reply matches Reply::Lease(Some(row)) && {
            let read = leases::lease_of(row, limits.maximum_store_path_bytes as nat);
            &&& read is Some
            &&& are_made(
                first,
                after,
                asked.take((count + 1) as int),
                request_id@,
                purpose,
                expires_after_seconds,
                limits,
                made.push(read->0),
            )
        },
{
    let earlier = asked.take(count as int);
    let longer = asked.take((count + 1) as int);
    let id = asked[count as int].0@;
    assert(!before.leases.contains_key(id)) by {
        if before.leases.contains_key(id) {
            if is_asked(earlier, id) {
                let i = choose|i: int| 0 <= i < earlier.len() && (#[trigger] earlier[i]).0@ == id;
                assert(earlier[i] == asked[i]);
            } else {
                assert(first.leases.contains_key(id));
            }
        }
    }
    let row = reply->Lease_0->0;
    let maximum = limits.maximum_store_path_bytes as nat;
    new_lease_is_read(
        row,
        id,
        StoreLeaseOwnerKind::Request,
        request_id@,
        asked[count as int].1@,
        purpose,
        expires_after_seconds,
        if purpose.is_retained() {
            Some(asked[count as int].2 as i64)
        } else {
            None
        },
        maximum,
    );
    let all = made.push(leases::lease_of(row, maximum)->0);
    assert forall|i: int| 0 <= i < longer.len() implies after.leases[(
    #[trigger] longer[i]).0@] == (if i == count {
        row
    } else {
        before.leases[longer[i].0@]
    }) by {
        if i < count {
            assert(asked[i].0@ != id);
        }
    }
    assert forall|i: int| 0 <= i < longer.len() implies {
        let found = after.leases[(#[trigger] longer[i]).0@];
        &&& after.leases.contains_key(longer[i].0@)
        &&& is_made(
            found,
            longer[i].0@,
            "request"@,
            request_id@,
            longer[i].1@,
            purpose.spec_name()@,
            expires_after_seconds,
            if purpose is Derivation || purpose is Input {
                Some(longer[i].2 as i64)
            } else {
                None
            },
        )
        &&& leases::lease_of(found, maximum) == Some(all[i])
    } by {
        if i < count {
            assert(earlier[i] == longer[i]);
        }
    }
    assert forall|one: Seq<char>| #[trigger] after.leases.contains_key(one) implies first.leases.contains_key(
        one,
    ) || is_asked(longer, one) by {
        if one == id {
            assert(longer[count as int].0@ == id);
        } else if is_asked(earlier, one) {
            let i = choose|i: int| 0 <= i < earlier.len() && (#[trigger] earlier[i]).0@ == one;
            assert(longer[i].0@ == one);
        }
    }
}

/// The making of leases on outputs.
pub open spec fn making_outputs(
    database_url: Seq<char>,
    request_id: String,
    retention: Span,
    asked: Seq<(String, String)>,
    limits: WorkerLimits,
) -> spec_fn(Seq<Reply>) -> Step<Seq<StoreLeaseRecord>, StoreLeaseError> {
    |history: Seq<Reply>|
        leases::output_step(database_url, request_id, retention, asked, limits, history)
}

/// Leases without sizes, each with one.
pub open spec fn sized(asked: Seq<(String, String)>) -> Seq<(String, String, u64)> {
    asked.map_values(|lease: (String, String)| (lease.0, lease.1, 1u64))
}

/// Leases on the outputs of a request are made as they were asked for: every path is held under its
/// name, and expires when its retention is over.
pub proof fn outputs_are_held(
    database_url: Seq<char>,
    request_id: String,
    retention: Span,
    asked: Seq<(String, String)>,
    limits: WorkerLimits,
    tables: Seq<LeaseRows>,
    history: Seq<Reply>,
)
    requires
        !text::is_blank(database_url),
        retention.nanoseconds == 0,
        60 <= retention.seconds <= 86_400,
        1 <= asked.len() <= limits.maximum_outputs,
        may_be_made(sized(asked), request_id@, limits),
        are_free(sized(asked), tables[0]),
        tables[0].requests.contains_key(request_id@) ==> is_there(tables[0], request_id@, limits),
        rows::ran(
            making_outputs(database_url, request_id, retention, asked, limits),
            on_leases(),
            tables,
            history,
        ),
    ensures
        ({
            let step = leases::output_step(
                database_url,
                request_id,
                retention,
                asked,
                limits,
                history,
            );
            if tables[0].requests.contains_key(request_id@) {
                step matches Step::Finish(Ok(made)) && are_made(
                    tables[0],
                    tables.last(),
                    sized(asked),
                    request_id@,
                    StoreLeasePurpose::Output,
                    Some(retention.seconds),
                    limits,
                    made,
                )
            } else {
                step == leases::failed::<Seq<StoreLeaseRecord>>(StoreLeaseFailure::Missing)
                    && tables.last() == tables[0]
            }
        }),
{
    let operation = making_outputs(database_url, request_id, retention, asked, limits);
    let counted = sized(asked);
    assert(counted =~= leases::counted(asked));
    next_is_done(operation, on_leases(), tables, history, 0);
    next_is_done(operation, on_leases(), tables, history, 1);
    if tables[0].requests.contains_key(request_id@) {
        assert forall|i: int| 2 <= i <= history.len() implies #[trigger] operation(
            history.take(i),
        ) == leases::insertion_step(
            2,
            request_id,
            StoreLeasePurpose::Output,
            counted,
            Some(retention.seconds),
            limits,
            history.take(i),
        ) by {
            assert(history.take(i)[1] == history[1]);
        }
        none_is_inserted(
            tables[2],
            history,
            2,
            counted,
            request_id@,
            StoreLeasePurpose::Output,
            Some(retention.seconds),
            limits,
        );
        rest_is_inserted(
            operation,
            tables,
            history,
            2,
            request_id,
            StoreLeasePurpose::Output,
            counted,
            Some(retention.seconds),
            limits,
            0,
            Seq::empty(),
        );
    } else {
        end_is_reached(operation, on_leases(), tables, history, 2);
    }
}

/// Before the first insertion nothing is made.
proof fn none_is_inserted(
    table: LeaseRows,
    history: Seq<Reply>,
    place: int,
    asked: Seq<(String, String, u64)>,
    request_id: Seq<char>,
    purpose: StoreLeasePurpose,
    expires_after_seconds: Option<u64>,
    limits: WorkerLimits,
)
    requires
        0 <= place <= history.len(),
    ensures
        are_made(
            table,
            table,
            asked.take(0),
            request_id,
            purpose,
            expires_after_seconds,
            limits,
            Seq::empty(),
        ),
        leases::replied_leases(
            history.subrange(place, place + 0),
            StoreLeaseFailure::Conflict,
            limits.maximum_store_path_bytes as nat,
        ) == Ok::<Seq<StoreLeaseRecord>, StoreLeaseFailure>(Seq::empty()),
{
}

/// The ensuring of leases on outputs.
pub open spec fn ensuring_outputs(
    database_url: Seq<char>,
    request_id: String,
    retention: Span,
    asked: Seq<(String, String)>,
    limits: WorkerLimits,
) -> spec_fn(Seq<Reply>) -> Step<Seq<StoreLeaseRecord>, StoreLeaseError> {
    |history: Seq<Reply>|
        leases::ensure_step(database_url, request_id, retention, asked, limits, history)
}

/// For each name and path that was asked for there is a lease of the request on that output under
/// that name, which holds, and which is what was returned.
pub open spec fn outputs_hold(
    table: LeaseRows,
    asked: Seq<(String, String)>,
    request_id: Seq<char>,
    limits: WorkerLimits,
    found: Seq<StoreLeaseRecord>,
) -> bool {
    &&& found.len() == asked.len()
    &&& forall|i: int|
        0 <= i < asked.len() ==> {
            let row = table.leases[(#[trigger] asked[i]).0@];
            &&& table.leases.contains_key(asked[i].0@)
            &&& is_output_of(row, request_id)
            &&& row.lease_id@ == asked[i].0@
            &&& row.store_path@ == asked[i].1@
            &&& row.state@ == "active"@
            &&& row.released_at is None
            &&& row.expires_at is Some
            &&& leases::lease_of(row, limits.maximum_store_path_bytes as nat) == Some(found[i])
        }
}

/// Leases that were found and are those asked for hold what was asked for.
proof fn found_outputs_hold(
    table: LeaseRows,
    listed: Seq<LeaseRow>,
    asked: Seq<(String, String)>,
    request_id: Seq<char>,
    limits: WorkerLimits,
)
    requires
        forall|i: int|
            0 <= i < listed.len() ==> table.leases.contains_key((#[trigger] listed[i]).lease_id@)
                && table.leases[listed[i].lease_id@] == listed[i] && is_output_of(
                listed[i],
                request_id,
            ),
        leases::leases_of(listed, limits.maximum_store_path_bytes as nat) is Some,
        leases::are_expected(
            leases::leases_of(listed, limits.maximum_store_path_bytes as nat)->0,
            asked,
        ),
    ensures
        outputs_hold(
            table,
            asked,
            request_id,
            limits,
            leases::leases_of(listed, limits.maximum_store_path_bytes as nat)->0,
        ),
{
    let maximum = limits.maximum_store_path_bytes as nat;
    let records = leases::leases_of(listed, maximum)->0;
    names_differ();
    assert forall|i: int| 0 <= i < asked.len() implies {
        let row = table.leases[(#[trigger] asked[i]).0@];
        &&& table.leases.contains_key(asked[i].0@)
        &&& is_output_of(row, request_id)
        &&& row.lease_id@ == asked[i].0@
        &&& row.store_path@ == asked[i].1@
        &&& row.state@ == "active"@
        &&& row.released_at is None
        &&& row.expires_at is Some
        &&& leases::lease_of(row, maximum) == Some(records[i])
    } by {
        assert(records[i].lease_id@ == asked[i].0@);
        assert(leases::lease_of(listed[i], maximum) == Some(records[i]));
    }
}

/// Where a request has no leases on outputs they are made as they were asked for. Where it has, they
/// are returned if they are those asked for, and else there is a conflict; either way nothing
/// changes.
#[verifier::rlimit(60)]
pub proof fn outputs_are_ensured(
    database_url: Seq<char>,
    request_id: String,
    retention: Span,
    asked: Seq<(String, String)>,
    limits: WorkerLimits,
    tables: Seq<LeaseRows>,
    history: Seq<Reply>,
)
    requires
        !text::is_blank(database_url),
        retention.nanoseconds == 0,
        60 <= retention.seconds <= 86_400,
        1 <= asked.len() <= limits.maximum_outputs,
        may_be_made(sized(asked), request_id@, limits),
        are_free(sized(asked), tables[0]) || exists|id: Seq<char>| #[trigger]
            tables[0].leases.contains_key(id) && is_output_of(tables[0].leases[id], request_id@),
        forall|id: Seq<char>| #[trigger]
            tables[0].leases.contains_key(id) ==> leases::lease_of(
                tables[0].leases[id],
                limits.maximum_store_path_bytes as nat,
            ) is Some,
        rows::ran(
            ensuring_outputs(database_url, request_id, retention, asked, limits),
            on_leases(),
            tables,
            history,
        ),
    ensures
        ({
            let step = leases::ensure_step(
                database_url,
                request_id,
                retention,
                asked,
                limits,
                history,
            );
            let has_outputs = exists|id: Seq<char>| #[trigger]
                tables[0].leases.contains_key(id) && is_output_of(
                    tables[0].leases[id],
                    request_id@,
                );
            if !tables[0].requests.contains_key(request_id@) {
                step == leases::failed::<Seq<StoreLeaseRecord>>(StoreLeaseFailure::Missing)
                    && tables.last() == tables[0]
            } else if has_outputs {
                &&& tables.last() == tables[0]
                &&& step == leases::failed::<Seq<StoreLeaseRecord>>(StoreLeaseFailure::Conflict) || (
                step matches Step::Finish(Ok(found)) && outputs_hold(
                    tables[0],
                    asked,
                    request_id@,
                    limits,
                    found,
                ))
            } else {
                step matches Step::Finish(Ok(made)) && are_made(
                    tables[0],
                    tables.last(),
                    sized(asked),
                    request_id@,
                    StoreLeasePurpose::Output,
                    Some(retention.seconds),
                    limits,
                    made,
                )
            }
        }),
{
    let operation = ensuring_outputs(database_url, request_id, retention, asked, limits);
    let counted = sized(asked);
    let maximum = limits.maximum_store_path_bytes as nat;
    assert(counted =~= leases::counted(asked));
    names_differ();
    next_is_done(operation, on_leases(), tables, history, 0);
    next_is_done(operation, on_leases(), tables, history, 1);
    if !tables[0].requests.contains_key(request_id@) {
        end_is_reached(operation, on_leases(), tables, history, 2);
    } else {
        next_is_done(operation, on_leases(), tables, history, 2);
        let listed = history[2]->Leases_0@;
        if listed.len() > 0 {
            assert(tables[0].leases.contains_key(listed[0].lease_id@));
            assert forall|i: int| 0 <= i < listed.len() implies leases::lease_of(
                #[trigger] listed[i],
                maximum,
            ) is Some by {
                assert(tables[0].leases.contains_key(listed[i].lease_id@));
            }
            let records = leases::leases_of(listed, maximum)->0;
            if leases::are_expected(records, asked) {
                next_is_done(operation, on_leases(), tables, history, 3);
                end_is_reached(operation, on_leases(), tables, history, 4);
                found_outputs_hold(tables[0], listed, asked, request_id@, limits);
            } else {
                end_is_reached(operation, on_leases(), tables, history, 3);
            }
        } else {
            assert forall|i: int| 3 <= i <= history.len() implies #[trigger] operation(
                history.take(i),
            ) == leases::insertion_step(
                3,
                request_id,
                StoreLeasePurpose::Output,
                counted,
                Some(retention.seconds),
                limits,
                history.take(i),
            ) by {
                assert(history.take(i)[1] == history[1]);
                assert(history.take(i)[2] == history[2]);
            }
            none_is_inserted(
                tables[3],
                history,
                3,
                counted,
                request_id@,
                StoreLeasePurpose::Output,
                Some(retention.seconds),
                limits,
            );
            rest_is_inserted(
                operation,
                tables,
                history,
                3,
                request_id,
                StoreLeasePurpose::Output,
                counted,
                Some(retention.seconds),
                limits,
                0,
                Seq::empty(),
            );
        }
    }
}

/// A sum is any one of its sizes and the sum of the others.
proof fn total_takes_any(sizes: Map<Seq<char>, int>, path: Seq<char>)
    requires
        sizes.dom().finite(),
        sizes.contains_key(path),
    ensures
        total(sizes) == sizes[path] + total(sizes.remove(path)),
    decreases sizes.dom().len(),
{
    let first = sizes.dom().choose();
    assert(sizes.dom().contains(path));
    if first != path {
        total_takes_any(sizes.remove(first), path);
        total_takes_any(sizes.remove(path), first);
        assert(sizes.remove(first).remove(path) =~= sizes.remove(path).remove(first));
    }
}

/// A path that is new adds its size.
proof fn total_grows(sizes: Map<Seq<char>, int>, path: Seq<char>, size: int)
    requires
        sizes.dom().finite(),
        !sizes.contains_key(path),
    ensures
        sizes.insert(path, size).dom().finite(),
        total(sizes.insert(path, size)) == total(sizes) + size,
{
    let grown = sizes.insert(path, size);
    total_takes_any(grown, path);
    assert(grown.remove(path) =~= sizes);
}

/// What is retained once leases were added: a path that was retained already is not counted again.
pub open spec fn merged(
    sizes: Map<Seq<char>, int>,
    asked: Seq<(String, String, u64)>,
) -> Map<Seq<char>, int>
    decreases asked.len(),
{
    if asked.len() == 0 {
        sizes
    } else {
        let earlier = merged(sizes, asked.drop_last());
        if earlier.contains_key(asked.last().1@) {
            earlier
        } else {
            earlier.insert(asked.last().1@, asked.last().2 as int)
        }
    }
}

/// A path is asked for with a size.
pub open spec fn is_wanted(asked: Seq<(String, String, u64)>, path: Seq<char>, size: int) -> bool {
    exists|i: int|
        0 <= i < asked.len() && (#[trigger] asked[i]).1@ == path && asked[i].2 as int == size
}

/// Of leases that are asked for no two are on one path.
pub open spec fn paths_differ(asked: Seq<(String, String, u64)>) -> bool {
    forall|i: int, j: int|
        0 <= i < j < asked.len() ==> (#[trigger] asked[i]).1@ != (#[trigger] asked[j]).1@
}

/// What is retained in the end are the paths that were and those asked for.
proof fn merged_has(
    sizes: Map<Seq<char>, int>,
    asked: Seq<(String, String, u64)>,
    path: Seq<char>,
)
    requires
        paths_differ(asked),
    ensures
        sizes.contains_key(path) ==> merged(sizes, asked).contains_key(path) && merged(
            sizes,
            asked,
        )[path] == sizes[path],
        !sizes.contains_key(path) && merged(sizes, asked).contains_key(path) ==> is_wanted(
            asked,
            path,
            merged(sizes, asked)[path],
        ),
        forall|i: int|
            0 <= i < asked.len() && (#[trigger] asked[i]).1@ == path ==> merged(
                sizes,
                asked,
            ).contains_key(path) && (!sizes.contains_key(path) ==> merged(sizes, asked)[path]
                == asked[i].2),
    decreases asked.len(),
{
    if asked.len() > 0 {
        let earlier = asked.drop_last();
        assert forall|i: int, j: int| 0 <= i < j < earlier.len() implies (
        #[trigger] earlier[i]).1@ != (#[trigger] earlier[j]).1@ by {
            assert(asked[i].1@ != asked[j].1@);
        }
        merged_has(sizes, earlier, path);
        let last = asked.last();
        if !sizes.contains_key(path) && merged(sizes, asked).contains_key(path) {
            if merged(sizes, earlier).contains_key(path) {
                let size = merged(sizes, earlier)[path];
                let i = choose|i: int|
                    0 <= i < earlier.len() && (#[trigger] earlier[i]).1@ == path && earlier[i].2 as int
                        == size;
                assert(asked[i].1@ == path);
            } else {
                assert(asked[asked.len() - 1].1@ == path);
            }
        }
        assert forall|i: int| 0 <= i < asked.len() && (#[trigger] asked[i]).1@ == path implies merged(
            sizes,
            asked,
        ).contains_key(path) && (!sizes.contains_key(path) ==> merged(sizes, asked)[path]
            == asked[i].2) by {
            if i < asked.len() - 1 {
                assert(earlier[i].1@ == path);
            } else if merged(sizes, earlier).contains_key(path) && !sizes.contains_key(path) {
                let size = merged(sizes, earlier)[path];
                let j = choose|j: int|
                    0 <= j < earlier.len() && (#[trigger] earlier[j]).1@ == path && earlier[j].2 as int
                        == size;
                assert(asked[j].1@ != asked[i].1@);
            }
        }
    }
}

/// Sizes that are asked for are those of paths that are retained already.
pub open spec fn agree(sizes: Map<Seq<char>, int>, asked: Seq<(String, String, u64)>) -> bool {
    forall|i: int|
        0 <= i < asked.len() && sizes.contains_key((#[trigger] asked[i]).1@)
            ==> sizes[asked[i].1@] == asked[i].2
}

/// The bytes that leases add are those by which what is retained grows.
proof fn additional_is_the_growth(
    sizes: Map<Seq<char>, int>,
    asked: Seq<(String, String, u64)>,
    read: Seq<(String, i64)>,
)
    requires
        sizes.dom().finite(),
        paths_differ(asked),
        forall|i: int|
            0 <= i < asked.len() ==> match leases::retained_size(read, (#[trigger] asked[i]).1@) {
                Some(size) => sizes.contains_key(asked[i].1@) && sizes[asked[i].1@] == size,
                None => !sizes.contains_key(asked[i].1@),
            },
    ensures
        merged(sizes, asked).dom().finite(),
        total(merged(sizes, asked)) >= total(sizes),
        ({
            let growth = total(merged(sizes, asked)) - total(sizes);
            let additional = leases::additional_bytes(asked, read);
            &&& agree(sizes, asked) && growth <= u64::MAX ==> additional == Ok::<
                u64,
                StoreLeaseFailure,
            >(growth as u64)
            &&& agree(sizes, asked) && growth > u64::MAX ==> additional == Err::<
                u64,
                StoreLeaseFailure,
            >(StoreLeaseFailure::Capacity)
            &&& !agree(sizes, asked) && growth <= u64::MAX ==> additional == Err::<
                u64,
                StoreLeaseFailure,
            >(StoreLeaseFailure::Conflict)
            &&& !agree(sizes, asked) ==> additional is Err
        }),
    decreases asked.len(),
{
    if asked.len() > 0 {
        let earlier = asked.drop_last();
        let last = asked.last();
        assert forall|i: int, j: int| 0 <= i < j < earlier.len() implies (
        #[trigger] earlier[i]).1@ != (#[trigger] earlier[j]).1@ by {
            assert(asked[i].1@ != asked[j].1@);
        }
        assert forall|i: int| 0 <= i < earlier.len() implies match leases::retained_size(
            read,
            (#[trigger] earlier[i]).1@,
        ) {
            Some(size) => sizes.contains_key(earlier[i].1@) && sizes[earlier[i].1@] == size,
            None => !sizes.contains_key(earlier[i].1@),
        } by {
            assert(earlier[i] == asked[i]);
        }
        additional_is_the_growth(sizes, earlier, read);
        merged_has(sizes, earlier, last.1@);
        assert(asked[asked.len() - 1] == last);
        if !sizes.contains_key(last.1@) {
            assert(!merged(sizes, earlier).contains_key(last.1@)) by {
                if merged(sizes, earlier).contains_key(last.1@) {
                    let size = merged(sizes, earlier)[last.1@];
                    let j = choose|j: int|
                        0 <= j < earlier.len() && (#[trigger] earlier[j]).1@ == last.1@
                            && earlier[j].2 as int == size;
                    assert(asked[j].1@ != asked[asked.len() - 1].1@);
                }
            }
            total_grows(merged(sizes, earlier), last.1@, last.2 as int);
        }
        if agree(sizes, asked) {
            assert forall|i: int|
                0 <= i < earlier.len() && sizes.contains_key((#[trigger] earlier[i]).1@) implies sizes[
                earlier[i].1@
            ] == earlier[i].2 by {
                assert(earlier[i] == asked[i]);
            }
        } else if agree(sizes, earlier) {
            let i = choose|i: int|
                0 <= i < asked.len() && sizes.contains_key((#[trigger] asked[i]).1@) && sizes[
                    asked[i].1@
                ] != asked[i].2;
            assert(i == asked.len() - 1) by {
                if i < asked.len() - 1 {
                    assert(earlier[i] == asked[i]);
                }
            }
        }
    }
}

/// A size is found where there is one.
proof fn size_is_found(read: Seq<(String, i64)>, path: Seq<char>)
    ensures
        match leases::retained_size(read, path) {
            Some(size) => exists|i: int|
                0 <= i < read.len() && (#[trigger] read[i]).0@ == path && read[i].1 == size,
            None => !is_sized(read, path),
        },
    decreases read.len(),
{
    if read.len() > 0 {
        assert(read[read.len() - 1] == read.last());
        if read.last().0@ != path {
            let earlier = read.drop_last();
            size_is_found(earlier, path);
            match leases::retained_size(read, path) {
                Some(size) => {
                    let i = choose|i: int|
                        0 <= i < earlier.len() && (#[trigger] earlier[i]).0@ == path && earlier[i].1
                            == size;
                    assert(read[i].0@ == path);
                },
                None => {
                    if is_sized(read, path) {
                        let i = choose|i: int| 0 <= i < read.len() && (#[trigger] read[i]).0@ == path;
                        assert(earlier[i].0@ == path);
                    }
                },
            }
        }
    }
}

/// The making of leases that retain paths.
pub open spec fn retaining(
    database_url: Seq<char>,
    request_id: String,
    maximum_retained_bytes: u64,
    purpose: StoreLeasePurpose,
    asked: Seq<(String, String, u64)>,
    limits: WorkerLimits,
) -> spec_fn(Seq<Reply>) -> Step<Seq<StoreLeaseRecord>, StoreLeaseError> {
    |history: Seq<Reply>|
        leases::retain_step(
            database_url,
            request_id,
            maximum_retained_bytes,
            purpose,
            asked,
            limits,
            history,
        )
}

/// Once leases were made, what is retained are the paths that were, and those asked for.
proof fn retained_after(
    before: LeaseRows,
    after: LeaseRows,
    asked: Seq<(String, String, u64)>,
    request_id: Seq<char>,
    purpose: StoreLeasePurpose,
    limits: WorkerLimits,
    made: Seq<StoreLeaseRecord>,
)
    requires
        purpose is Derivation || purpose is Input,
        paths_differ(asked),
        sizes_agree(before.leases),
        are_free(asked, before),
        agree(retained(before.leases), asked),
        forall|i: int| 0 <= i < asked.len() ==> (#[trigger] asked[i]).2 <= i64::MAX,
        are_made(before, after, asked, request_id, purpose, None, limits, made),
    ensures
        sizes_agree(after.leases),
        retained(after.leases) == merged(retained(before.leases), asked),
{
    let old_sizes = retained(before.leases);
    let sizes = merged(old_sizes, asked);
    assert forall|id: Seq<char>, path: Seq<char>| #[trigger]
        holds(after.leases, id, path) implies sizes.contains_key(path)
        && after.leases[id].nar_size is Some && after.leases[id].nar_size->0 == sizes[path]
        && after.leases[id].nar_size->0 >= 0 by {
        merged_has(old_sizes, asked, path);
        assert(after.leases.contains_key(id));
        if before.leases.contains_key(id) {
            assert(holds(before.leases, id, path));
            let one = choose|one: Seq<char>| #[trigger] holds(before.leases, one, path);
            assert(holds(before.leases, one, path));
        } else {
            assert(is_asked(asked, id));
            let i = choose|i: int| 0 <= i < asked.len() && (#[trigger] asked[i]).0@ == id;
            assert(asked[i].1@ == path);
        }
    }
    assert forall|path: Seq<char>| #[trigger] sizes.contains_key(path) implies is_retained(
        after.leases,
        path,
    ) by {
        merged_has(old_sizes, asked, path);
        names_differ();
        if old_sizes.contains_key(path) {
            let id = choose|id: Seq<char>| #[trigger] holds(before.leases, id, path);
            assert(before.leases.contains_key(id));
            assert(holds(after.leases, id, path));
        } else {
            let size = sizes[path];
            let i = choose|i: int|
                0 <= i < asked.len() && (#[trigger] asked[i]).1@ == path && asked[i].2 as int == size;
            assert(holds(after.leases, asked[i].0@, path));
        }
    }
    let new_sizes = retained(after.leases);
    assert forall|path: Seq<char>| #[trigger] new_sizes.contains_key(path) implies sizes.contains_key(
        path,
    ) && new_sizes[path] == sizes[path] by {
        let id = choose|id: Seq<char>| #[trigger] holds(after.leases, id, path);
        assert(holds(after.leases, id, path));
    }
    assert(new_sizes =~= sizes);
}

/// Leases that retain paths for a request are made as they were asked for, where what is retained
/// then is within the limit: every path is held under its name, and a path that is retained already
/// is not counted again. Where it would not be within the limit nothing is made, nor where a path is
/// retained already with another size.
#[verifier::rlimit(60)]
pub proof fn retained_paths_are_held(
    database_url: Seq<char>,
    request_id: String,
    maximum_retained_bytes: u64,
    purpose: StoreLeasePurpose,
    asked: Seq<(String, String, u64)>,
    limits: WorkerLimits,
    tables: Seq<LeaseRows>,
    history: Seq<Reply>,
)
    requires
        !text::is_blank(database_url),
        purpose is Derivation || purpose is Input,
        maximum_retained_bytes > 0,
        asked.len() <= limits.maximum_input_sources,
        may_be_made(asked, request_id@, limits),
        forall|i: int| 0 <= i < asked.len() ==> 0 < (#[trigger] asked[i]).2 <= i64::MAX,
        are_free(asked, tables[0]),
        is_there(tables[0], request_id@, limits),
        sizes_agree(tables[0].leases),
        retained(tables[0].leases).dom().finite(),
        total(retained(tables[0].leases)) >= 0,
        // There is a list with the paths.
        database::list_of(leases::paths_of(asked))@ == leases::paths_of(asked),
        rows::ran(
            retaining(
                database_url,
                request_id,
                maximum_retained_bytes,
                purpose,
                asked,
                limits,
            ),
            on_leases(),
            tables,
            history,
        ),
    ensures
        ({
            let step = leases::retain_step(
                database_url,
                request_id,
                maximum_retained_bytes,
                purpose,
                asked,
                limits,
                history,
            );
            let sizes = retained(tables[0].leases);
            if !agree(sizes, asked) {
                &&& step is Finish && step->Finish_0 is Err
                &&& total(merged(sizes, asked)) <= u64::MAX ==> step == leases::failed::<
                    Seq<StoreLeaseRecord>,
                >(StoreLeaseFailure::Conflict)
                &&& tables.last() == tables[0]
            } else if total(merged(sizes, asked)) > maximum_retained_bytes {
                step == leases::failed::<Seq<StoreLeaseRecord>>(StoreLeaseFailure::Capacity)
                    && tables.last() == tables[0]
            } else {
                &&& step matches Step::Finish(Ok(made)) && are_made(
                    tables[0],
                    tables.last(),
                    asked,
                    request_id@,
                    purpose,
                    None,
                    limits,
                    made,
                )
                &&& sizes_agree(tables.last().leases)
                &&& retained(tables.last().leases) == merged(sizes, asked)
                &&& total(retained(tables.last().leases)) <= maximum_retained_bytes
            }
        }),
{
    let operation = retaining(
        database_url,
        request_id,
        maximum_retained_bytes,
        purpose,
        asked,
        limits,
    );
    let sizes = retained(tables[0].leases);
    next_is_done(operation, on_leases(), tables, history, 0);
    next_is_done(operation, on_leases(), tables, history, 1);
    next_is_done(operation, on_leases(), tables, history, 2);
    next_is_done(operation, on_leases(), tables, history, 3);
    next_is_done(operation, on_leases(), tables, history, 4);
    let read = history[4]->Sizes_0@;
    read_sizes_are_known(tables[0].leases, asked, read);
    additional_is_the_growth(sizes, asked, read);
    let admitted = leases::admission(
        history[3]->Count_0,
        maximum_retained_bytes,
        asked,
        read,
    );
    if admitted is Err {
        end_is_reached(operation, on_leases(), tables, history, 5);
    } else {
        assert forall|i: int| 5 <= i <= history.len() implies #[trigger] operation(
            history.take(i),
        ) == leases::insertion_step(
            5,
            request_id,
            purpose,
            asked,
            None,
            limits,
            history.take(i),
        ) by {
            let begun = history.take(i);
            assert(begun[0] == history[0] && begun[1] == history[1] && begun[2] == history[2]);
            assert(begun[3] == history[3] && begun[4] == history[4]);
        }
        none_is_inserted(tables[5], history, 5, asked, request_id@, purpose, None, limits);
        rest_is_inserted(
            operation,
            tables,
            history,
            5,
            request_id,
            purpose,
            asked,
            None,
            limits,
            0,
            Seq::empty(),
        );
        retained_after(
            tables[0],
            tables.last(),
            asked,
            request_id@,
            purpose,
            limits,
            operation(history)->Finish_0->Ok_0,
        );
    }
}

/// The making of leases on the inputs of a request.
pub open spec fn keeping_inputs(
    database_url: Seq<char>,
    request_id: String,
    maximum_retained_bytes: u64,
    asked: Seq<(String, String, u64)>,
    limits: WorkerLimits,
) -> spec_fn(Seq<Reply>) -> Step<Seq<StoreLeaseRecord>, StoreLeaseError> {
    |history: Seq<Reply>|
        leases::input_step(
            database_url,
            request_id,
            maximum_retained_bytes,
            asked,
            limits,
            history,
        )
}

/// The inputs of a request are held as they were asked for, each under its name and on its path,
/// where what is retained then is within the limit, and nothing is made otherwise. For no inputs
/// there is nothing to do.
pub proof fn inputs_are_held(
    database_url: Seq<char>,
    request_id: String,
    maximum_retained_bytes: u64,
    asked: Seq<(String, String, u64)>,
    limits: WorkerLimits,
    tables: Seq<LeaseRows>,
    history: Seq<Reply>,
)
    requires
        !text::is_blank(database_url),
        maximum_retained_bytes > 0,
        asked.len() <= limits.maximum_input_sources,
        may_be_made(asked, request_id@, limits),
        forall|i: int| 0 <= i < asked.len() ==> 0 < (#[trigger] asked[i]).2 <= i64::MAX,
        are_free(asked, tables[0]),
        is_there(tables[0], request_id@, limits),
        sizes_agree(tables[0].leases),
        retained(tables[0].leases).dom().finite(),
        total(retained(tables[0].leases)) >= 0,
        // There is a list with the paths.
        database::list_of(leases::paths_of(asked))@ == leases::paths_of(asked),
        rows::ran(
            keeping_inputs(database_url, request_id, maximum_retained_bytes, asked, limits),
            on_leases(),
            tables,
            history,
        ),
    ensures
        ({
            let step = leases::input_step(
                database_url,
                request_id,
                maximum_retained_bytes,
                asked,
                limits,
                history,
            );
            let sizes = retained(tables[0].leases);
            if asked.len() == 0 {
                step == Step::<Seq<StoreLeaseRecord>, StoreLeaseError>::Finish(Ok(Seq::empty()))
                    && tables.last() == tables[0]
            } else if !agree(sizes, asked) {
                step is Finish && step->Finish_0 is Err && tables.last() == tables[0]
            } else if total(merged(sizes, asked)) > maximum_retained_bytes {
                step == leases::failed::<Seq<StoreLeaseRecord>>(StoreLeaseFailure::Capacity)
                    && tables.last() == tables[0]
            } else {
                &&& step matches Step::Finish(Ok(made)) && are_made(
                    tables[0],
                    tables.last(),
                    asked,
                    request_id@,
                    StoreLeasePurpose::Input,
                    None,
                    limits,
                    made,
                )
                &&& total(retained(tables.last().leases)) <= maximum_retained_bytes
            }
        }),
{
    let operation = keeping_inputs(
        database_url,
        request_id,
        maximum_retained_bytes,
        asked,
        limits,
    );
    if asked.len() == 0 {
        end_is_reached(operation, on_leases(), tables, history, 0);
    } else {
        let other = retaining(
            database_url,
            request_id,
            maximum_retained_bytes,
            StoreLeasePurpose::Input,
            asked,
            limits,
        );
        assert forall|begun: Seq<Reply>| #[trigger] other(begun) == operation(begun) by {}
        retained_paths_are_held(
            database_url,
            request_id,
            maximum_retained_bytes,
            StoreLeasePurpose::Input,
            asked,
            limits,
            tables,
            history,
        );
    }
}

/// The making of one lease that retains a path.
pub open spec fn retaining_one(
    database_url: Seq<char>,
    lease_id: String,
    request_id: String,
    store_path: String,
    purpose: StoreLeasePurpose,
    nar_size: u64,
    maximum_retained_bytes: u64,
    limits: WorkerLimits,
) -> spec_fn(Seq<Reply>) -> Step<StoreLeaseRecord, StoreLeaseError> {
    |history: Seq<Reply>|
        leases::retained_step(
            database_url,
            lease_id,
            request_id,
            store_path,
            purpose,
            nar_size,
            maximum_retained_bytes,
            limits,
            history,
        )
}

/// One path that is to be retained for a request is held under its name, and the lease that is
/// returned is the one that was made, where what is retained then is within the limit. Only a
/// derivation or an input is retained.
pub proof fn one_path_is_retained(
    database_url: Seq<char>,
    lease_id: String,
    request_id: String,
    store_path: String,
    purpose: StoreLeasePurpose,
    nar_size: u64,
    maximum_retained_bytes: u64,
    limits: WorkerLimits,
    tables: Seq<LeaseRows>,
    history: Seq<Reply>,
)
    requires
        !text::is_blank(database_url),
        maximum_retained_bytes > 0,
        1 <= limits.maximum_input_sources,
        may_be_made(seq![(lease_id, store_path, nar_size)], request_id@, limits),
        0 < nar_size <= i64::MAX,
        are_free(seq![(lease_id, store_path, nar_size)], tables[0]),
        is_there(tables[0], request_id@, limits),
        sizes_agree(tables[0].leases),
        retained(tables[0].leases).dom().finite(),
        total(retained(tables[0].leases)) >= 0,
        // There is a list with the path.
        database::list_of(leases::paths_of(seq![(lease_id, store_path, nar_size)]))@
            == leases::paths_of(seq![(lease_id, store_path, nar_size)]),
        rows::ran(
            retaining_one(
                database_url,
                lease_id,
                request_id,
                store_path,
                purpose,
                nar_size,
                maximum_retained_bytes,
                limits,
            ),
            on_leases(),
            tables,
            history,
        ),
    ensures
        ({
            let step = leases::retained_step(
                database_url,
                lease_id,
                request_id,
                store_path,
                purpose,
                nar_size,
                maximum_retained_bytes,
                limits,
                history,
            );
            let asked = seq![(lease_id, store_path, nar_size)];
            let sizes = retained(tables[0].leases);
            if !(purpose is Derivation || purpose is Input) {
                step == leases::failed::<StoreLeaseRecord>(StoreLeaseFailure::Configuration)
                    && tables.last() == tables[0]
            } else if !agree(sizes, asked) {
                step is Finish && step->Finish_0 is Err && tables.last() == tables[0]
            } else if total(merged(sizes, asked)) > maximum_retained_bytes {
                step == leases::failed::<StoreLeaseRecord>(StoreLeaseFailure::Capacity)
                    && tables.last() == tables[0]
            } else {
                &&& step matches Step::Finish(Ok(made)) && are_made(
                    tables[0],
                    tables.last(),
                    asked,
                    request_id@,
                    purpose,
                    None,
                    limits,
                    seq![made],
                )
                &&& total(retained(tables.last().leases)) <= maximum_retained_bytes
            }
        }),
{
    let operation = retaining_one(
        database_url,
        lease_id,
        request_id,
        store_path,
        purpose,
        nar_size,
        maximum_retained_bytes,
        limits,
    );
    let asked = seq![(lease_id, store_path, nar_size)];
    if !(purpose is Derivation || purpose is Input) {
        end_is_reached(operation, on_leases(), tables, history, 0);
    } else {
        let other = retaining(
            database_url,
            request_id,
            maximum_retained_bytes,
            purpose,
            asked,
            limits,
        );
        assert forall|begun: Seq<Reply>| #[trigger]
            operation(begun) == leases::first_of(other(begun)) by {}
        assert forall|i: int| 0 <= i < history.len() implies {
            let step = other(#[trigger] history.take(i));
            step is Perform && on_leases()(tables[i], step->Perform_0, history[i], tables[i + 1])
        } by {
            assert(operation(history.take(i)) is Perform);
        }
        assert(rows::ran(other, on_leases(), tables, history));
        retained_paths_are_held(
            database_url,
            request_id,
            maximum_retained_bytes,
            purpose,
            asked,
            limits,
            tables,
            history,
        );
        if let Step::Finish(Ok(made)) = other(history) {
            if made.len() == 1 {
                assert(made =~= seq![made[0]]);
            }
        }
    }
}

/// The sizes that were read are those of what is retained.
proof fn read_sizes_are_known(
    table: Map<Seq<char>, LeaseRow>,
    asked: Seq<(String, String, u64)>,
    read: Seq<(String, i64)>,
)
    requires
        are_sizes(read, table, leases::paths_of(asked)),
    ensures
        forall|i: int|
            0 <= i < asked.len() ==> match leases::retained_size(read, (#[trigger] asked[i]).1@) {
                Some(size) => retained(table).contains_key(asked[i].1@) && retained(table)[
                    asked[i].1@
                ] == size,
                None => !retained(table).contains_key(asked[i].1@),
            },
{
    let paths = leases::paths_of(asked);
    assert forall|i: int| 0 <= i < asked.len() implies match leases::retained_size(
        read,
        (#[trigger] asked[i]).1@,
    ) {
        Some(size) => retained(table).contains_key(asked[i].1@) && retained(table)[asked[i].1@]
            == size,
        None => !retained(table).contains_key(asked[i].1@),
    } by {
        size_is_found(read, asked[i].1@);
        assert(paths[i] == asked[i].1);
        match leases::retained_size(read, asked[i].1@) {
            Some(size) => {
                let j = choose|j: int|
                    0 <= j < read.len() && (#[trigger] read[j]).0@ == asked[i].1@ && read[j].1
                        == size;
                assert(retained(table).contains_key(read[j].0@));
            },
            None => {},
        }
    }
}

/// The making of one lease.
pub open spec fn making(
    database_url: Seq<char>,
    lease_id: String,
    owner_kind: StoreLeaseOwnerKind,
    owner_id: String,
    store_path: String,
    purpose: StoreLeasePurpose,
    limits: WorkerLimits,
) -> spec_fn(Seq<Reply>) -> Step<StoreLeaseRecord, StoreLeaseError> {
    |history: Seq<Reply>|
        leases::create_step(
            database_url,
            lease_id,
            owner_kind,
            owner_id,
            store_path,
            purpose,
            limits,
            history,
        )
}

/// Why an owner cannot have a lease, if it cannot: a request has to be there, and a session has to
/// be there and open.
pub open spec fn owner_refusal(
    table: LeaseRows,
    owner_kind: StoreLeaseOwnerKind,
    owner_id: Seq<char>,
) -> Option<StoreLeaseFailure> {
    match owner_kind {
        StoreLeaseOwnerKind::Request => if table.requests.contains_key(owner_id) {
            None
        } else {
            Some(StoreLeaseFailure::Missing)
        },
        StoreLeaseOwnerKind::Session => if !table.sessions.contains_key(owner_id) {
            Some(StoreLeaseFailure::Missing)
        } else if table.sessions[owner_id].state@ == "open"@ {
            None
        } else {
            Some(StoreLeaseFailure::InvalidState)
        },
    }
}

/// A lease is made for an owner that can have it and under a name that is free: it holds the path
/// for that owner, for an hour where it is on an output. Else nothing is made.
pub proof fn path_is_held(
    database_url: Seq<char>,
    lease_id: String,
    owner_kind: StoreLeaseOwnerKind,
    owner_id: String,
    store_path: String,
    purpose: StoreLeasePurpose,
    limits: WorkerLimits,
    tables: Seq<LeaseRows>,
    history: Seq<Reply>,
)
    requires
        !text::is_blank(database_url),
        database::is_component(lease_id@),
        database::is_component(owner_id@),
        leases::is_store_path(store_path@, limits.maximum_store_path_bytes as nat),
        tables[0].requests.contains_key(owner_id@) ==> is_there(tables[0], owner_id@, limits),
        tables[0].sessions.contains_key(owner_id@) ==> sessions::session_of(
            tables[0].sessions[owner_id@],
        ) is Some,
        rows::ran(
            making(
                database_url,
                lease_id,
                owner_kind,
                owner_id,
                store_path,
                purpose,
                limits,
            ),
            on_leases(),
            tables,
            history,
        ),
    ensures
        ({
            let step = leases::create_step(
                database_url,
                lease_id,
                owner_kind,
                owner_id,
                store_path,
                purpose,
                limits,
                history,
            );
            let refusal = owner_refusal(tables[0], owner_kind, owner_id@);
            let row = tables.last().leases[lease_id@];
            if refusal is Some {
                step == leases::failed::<StoreLeaseRecord>(refusal->0) && tables.last() == tables[0]
            } else if tables[0].leases.contains_key(lease_id@) {
                step == leases::failed::<StoreLeaseRecord>(StoreLeaseFailure::Conflict)
                    && tables.last() == tables[0]
            } else {
                &&& tables.last() == (LeaseRows {
                    leases: tables[0].leases.insert(lease_id@, row),
                    ..tables[0]
                })
                &&& is_made(
                    row,
                    lease_id@,
                    if owner_kind is Request {
                        "request"@
                    } else {
                        "session"@
                    },
                    owner_id@,
                    store_path@,
                    purpose.spec_name()@,
                    if purpose is Output {
                        Some(3600)
                    } else {
                        None
                    },
                    if purpose is Derivation || purpose is Input {
                        Some(1)
                    } else {
                        None
                    },
                )
                &&& step matches Step::Finish(Ok(made)) && leases::lease_of(
                    row,
                    limits.maximum_store_path_bytes as nat,
                ) == Some(made)
            }
        }),
{
    let operation = making(
        database_url,
        lease_id,
        owner_kind,
        owner_id,
        store_path,
        purpose,
        limits,
    );
    next_is_done(operation, on_leases(), tables, history, 0);
    next_is_done(operation, on_leases(), tables, history, 1);
    reveal_strlit("open");
    reveal_strlit("closed");
    assert("open"@.len() == 4 && "closed"@.len() == 6);
    if owner_refusal(tables[0], owner_kind, owner_id@) is Some {
        end_is_reached(operation, on_leases(), tables, history, 2);
    } else {
        next_is_done(operation, on_leases(), tables, history, 2);
        if tables[0].leases.contains_key(lease_id@) {
            end_is_reached(operation, on_leases(), tables, history, 3);
        } else {
            let row = history[2]->Lease_0->0;
            new_lease_is_read(
                row,
                lease_id@,
                owner_kind,
                owner_id@,
                store_path@,
                purpose,
                if purpose is Output {
                    Some(3600)
                } else {
                    None
                },
                if purpose is Derivation || purpose is Input {
                    Some(1)
                } else {
                    None
                },
                limits.maximum_store_path_bytes as nat,
            );
            next_is_done(operation, on_leases(), tables, history, 3);
            end_is_reached(operation, on_leases(), tables, history, 4);
        }
    }
}

/// The reading of a lease.
pub open spec fn reading(
    database_url: Seq<char>,
    lease_id: String,
    limits: WorkerLimits,
) -> spec_fn(Seq<Reply>) -> Step<Option<StoreLeaseRecord>, StoreLeaseError> {
    |history: Seq<Reply>| leases::read_step(database_url, lease_id, limits, history)
}

/// A lease as it is recorded.
pub open spec fn is_recorded(lease: StoreLeaseRecord, row: LeaseRow) -> bool {
    &&& lease.lease_id@ == row.lease_id@
    &&& row.owner_kind@ == (if lease.owner_kind is Request {
        "request"@
    } else {
        "session"@
    })
    &&& lease.owner_id@ == row.owner_id@
    &&& lease.store_path@ == row.store_path@
    &&& row.purpose@ == match lease.purpose {
        StoreLeasePurpose::Derivation => "derivation"@,
        StoreLeasePurpose::Input => "input"@,
        StoreLeasePurpose::Output => "output"@,
        StoreLeasePurpose::Transfer => "transfer"@,
    }
    &&& row.state@ == (if lease.state is Active {
        "active"@
    } else {
        "released"@
    })
    &&& lease.created_at == row.created_at
    &&& lease.released_at == row.released_at
    &&& lease.expires_at == row.expires_at
    &&& match (lease.nar_size, row.nar_size) {
        (Some(size), Some(recorded)) => size == recorded,
        (None, None) => true,
        _ => false,
    }
}

/// A lease is read as it is recorded, and nothing where there is none.
pub proof fn recorded_lease_is_read(
    database_url: Seq<char>,
    lease_id: String,
    limits: WorkerLimits,
    tables: Seq<LeaseRows>,
    history: Seq<Reply>,
)
    requires
        !text::is_blank(database_url),
        database::is_component(lease_id@),
        tables[0].leases.contains_key(lease_id@) ==> leases::lease_of(
            tables[0].leases[lease_id@],
            limits.maximum_store_path_bytes as nat,
        ) is Some,
        rows::ran(reading(database_url, lease_id, limits), on_leases(), tables, history),
    ensures
        leases::read_step(database_url, lease_id, limits, history) matches Step::Finish(Ok(read))
            && if tables[0].leases.contains_key(lease_id@) {
            read matches Some(lease) && is_recorded(lease, tables[0].leases[lease_id@])
        } else {
            read is None
        },
        tables.last() == tables[0],
{
    let operation = reading(database_url, lease_id, limits);
    next_is_done(operation, on_leases(), tables, history, 0);
    next_is_done(operation, on_leases(), tables, history, 1);
    end_is_reached(operation, on_leases(), tables, history, 2);
}

/// The release of a lease.
pub open spec fn releasing(
    database_url: Seq<char>,
    lease_id: String,
    limits: WorkerLimits,
) -> spec_fn(Seq<Reply>) -> Step<StoreLeaseRecord, StoreLeaseError> {
    |history: Seq<Reply>| leases::release_step(database_url, lease_id, limits, history)
}

/// A lease that was released can be read.
pub proof fn released_lease_is_read(row: LeaseRow, before: LeaseRow, maximum_path_bytes: nat)
    requires
        is_released(row, before),
        leases::lease_of(before, maximum_path_bytes) is Some,
    ensures
        leases::lease_of(row, maximum_path_bytes) matches Some(lease) && lease.state
            == StoreLeaseState::Released && is_recorded(lease, row),
{
    names_differ();
}

/// An active lease is released, and is what was returned; all other rows are as before. One that is
/// not there or was released before is refused, and nothing changes.
pub proof fn active_lease_is_released(
    database_url: Seq<char>,
    lease_id: String,
    limits: WorkerLimits,
    tables: Seq<LeaseRows>,
    history: Seq<Reply>,
)
    requires
        !text::is_blank(database_url),
        database::is_component(lease_id@),
        tables[0].leases.contains_key(lease_id@) ==> leases::lease_of(
            tables[0].leases[lease_id@],
            limits.maximum_store_path_bytes as nat,
        ) is Some,
        rows::ran(releasing(database_url, lease_id, limits), on_leases(), tables, history),
    ensures
        ({
            let step = leases::release_step(database_url, lease_id, limits, history);
            let row = tables.last().leases[lease_id@];
            if !tables[0].leases.contains_key(lease_id@) {
                step == leases::failed::<StoreLeaseRecord>(StoreLeaseFailure::Missing)
                    && tables.last() == tables[0]
            } else if tables[0].leases[lease_id@].state@ == "released"@ {
                step == leases::failed::<StoreLeaseRecord>(StoreLeaseFailure::InvalidState)
                    && tables.last() == tables[0]
            } else {
                &&& is_released(row, tables[0].leases[lease_id@])
                &&& tables.last() == (LeaseRows {
                    leases: tables[0].leases.insert(lease_id@, row),
                    ..tables[0]
                })
                &&& step matches Step::Finish(Ok(released)) && is_recorded(released, row)
            }
        }),
{
    let operation = releasing(database_url, lease_id, limits);
    let maximum = limits.maximum_store_path_bytes as nat;
    names_differ();
    next_is_done(operation, on_leases(), tables, history, 0);
    next_is_done(operation, on_leases(), tables, history, 1);
    if tables[0].leases.contains_key(lease_id@) && tables[0].leases[lease_id@].state@
        != "released"@ {
        next_is_done(operation, on_leases(), tables, history, 2);
        released_lease_is_read(
            history[2]->Lease_0->0,
            tables[0].leases[lease_id@],
            maximum,
        );
        next_is_done(operation, on_leases(), tables, history, 3);
        end_is_reached(operation, on_leases(), tables, history, 4);
    } else {
        end_is_reached(operation, on_leases(), tables, history, 2);
    }
}

} // verus!
