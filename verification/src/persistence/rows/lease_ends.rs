//! The ends of leases on the rows: what a request has read is released with it, its outputs stay
//! until they expire.

use crate::persistence::database::{
    self, AttachmentRow, BuildRequestRow, LeaseRow, Moment, Reply, Statement, Step, WorkerLimits,
};
use crate::persistence::leases::{self, StoreLeaseError, StoreLeaseFailure, StoreLeaseRecord};
use crate::persistence::rows::leases::{is_recorded, is_released};
use crate::persistence::rows::{self, end_is_reached, next_is_done};
use crate::persistence::{attachments, build_requests};
use crate::text;
use vstd::prelude::*;

verus! {

/// Leases and requests under their names, and attachments under those of session and request.
pub struct EndRows {
    pub leases: Map<Seq<char>, LeaseRow>,
    pub requests: Map<Seq<char>, BuildRequestRow>,
    pub attachments: Map<(Seq<char>, Seq<char>), AttachmentRow>,
}

/// A lease has expired and is to be released, if its name is after a place.
pub open spec fn is_expired(
    table: EndRows,
    id: Seq<char>,
    now: Moment,
    after: Option<String>,
) -> bool {
    let row = table.leases[id];
    &&& table.leases.contains_key(id)
    &&& row.owner_kind@ == "request"@
    &&& row.purpose@ == "output"@
    &&& row.state@ == "active"@
    &&& row.expires_at is Some
    &&& row.expires_at->0 <= now
    &&& is_after(id, after)
}

/// A name is after a place.
pub open spec fn is_after(id: Seq<char>, after: Option<String>) -> bool {
    match after {
        Some(place) => text::precedes(place@, id),
        None => true,
    }
}

/// A lease of a request that was released.
pub open spec fn is_over(table: EndRows, id: Seq<char>, after: Option<String>) -> bool {
    let row = table.leases[id];
    &&& table.leases.contains_key(id)
    &&& row.owner_kind@ == "request"@
    &&& row.state@ == "released"@
    &&& is_after(id, after)
}

/// Rows are those of leases that meet a condition, in the order of their names and at most so many:
/// all of them, unless there are that many.
pub open spec fn are_listed(
    listed: Seq<LeaseRow>,
    table: EndRows,
    meets: spec_fn(Seq<char>) -> bool,
    maximum_rows: int,
) -> bool {
    &&& listed.len() <= maximum_rows
    &&& forall|i: int|
        0 <= i < listed.len() ==> table.leases.contains_key((#[trigger] listed[i]).lease_id@)
            && table.leases[listed[i].lease_id@] == listed[i] && meets(listed[i].lease_id@)
    &&& forall|i: int, j: int|
        0 <= i < j < listed.len() ==> text::precedes(
            (#[trigger] listed[i]).lease_id@,
            (#[trigger] listed[j]).lease_id@,
        )
    &&& forall|id: Seq<char>| #[trigger]
        table.leases.contains_key(id) && meets(id) ==> listed.len() == maximum_rows || is_among(
            listed,
            id,
        )
}

/// A lease is among rows.
pub open spec fn is_among(listed: Seq<LeaseRow>, id: Seq<char>) -> bool {
    exists|i: int| 0 <= i < listed.len() && (#[trigger] listed[i]).lease_id@ == id
}

/// A lease of a request on what its build reads, which holds.
pub open spec fn is_read_by(row: LeaseRow, request_id: Seq<char>) -> bool {
    &&& row.owner_kind@ == "request"@
    &&& row.owner_id@ == request_id
    &&& row.purpose@ == "derivation"@ || row.purpose@ == "input"@
    &&& row.state@ == "active"@
}

/// The leases of a request on what its build reads were released, and no others.
pub open spec fn reads_are_released(
    before: Map<Seq<char>, LeaseRow>,
    after: Map<Seq<char>, LeaseRow>,
    request_id: Seq<char>,
) -> bool {
    &&& after.dom() == before.dom()
    &&& forall|id: Seq<char>| #[trigger]
        before.contains_key(id) ==> if is_read_by(before[id], request_id) {
            is_released(after[id], before[id])
        } else {
            after[id] == before[id]
        }
}

/// An attachment is another one after it was detached.
pub open spec fn is_detached(row: AttachmentRow, before: AttachmentRow) -> bool {
    &&& row == (AttachmentRow { state: row.state, detached_at: row.detached_at, ..before })
    &&& row.state@ == "detached"@
    &&& row.detached_at is Some
}

/// A session was attached to a request.
pub open spec fn was_attached(table: EndRows, request_id: Seq<char>) -> bool {
    exists|session_id: Seq<char>| #[trigger]
        table.attachments.contains_key((session_id, request_id))
}

/// What statements do that end leases.
pub open spec fn ends_change(
    before: EndRows,
    statement: Statement,
    reply: Reply,
    after: EndRows,
) -> bool {
    match statement {
        Statement::Begin | Statement::Commit => reply is Done && after == before,
        Statement::LockExpiredOutputLeases { now, after_lease_id, maximum_rows } => after == before
            && match reply {
            Reply::Leases(listed) => are_listed(
                listed@,
                before,
                |id: Seq<char>| is_expired(before, id, now, after_lease_id),
                maximum_rows as int,
            ),
            _ => false,
        },
        Statement::ReadReleasedRequestLeases { after_lease_id, maximum_rows } => after == before
            && match reply {
            Reply::Leases(listed) => are_listed(
                listed@,
                before,
                |id: Seq<char>| is_over(before, id, after_lease_id),
                maximum_rows as int,
            ),
            _ => false,
        },
        Statement::ReleaseActiveLease { lease_id } => if before.leases.contains_key(lease_id@)
            && before.leases[lease_id@].state@ == "active"@ {
            match reply {
                Reply::Lease(Some(row)) => is_released(row, before.leases[lease_id@]) && after == (
                EndRows { leases: before.leases.insert(lease_id@, row), ..before }),
                _ => false,
            }
        } else {
            reply == Reply::Lease(None) && after == before
        },
        Statement::LockBuildRequest { request_id } => after == before
            && if before.requests.contains_key(request_id@) {
            reply == Reply::BuildRequest(Some(before.requests[request_id@]))
        } else {
            reply == Reply::BuildRequest(None)
        },
        Statement::LockAttachment { session_id, request_id } => after == before
            && if before.attachments.contains_key((session_id@, request_id@)) {
            reply == Reply::Attachment(Some(before.attachments[(session_id@, request_id@)]))
        } else {
            reply == Reply::Attachment(None)
        },
        Statement::FindAttachment { request_id } => after == before && reply == Reply::Found(
            was_attached(before, request_id@),
        ),
        Statement::DetachAttached { session_id, request_id } => {
            let place = (session_id@, request_id@);
            if before.attachments.contains_key(place) && before.attachments[place].state@
                == "attached"@ {
                match reply {
                    Reply::Attachment(Some(row)) => is_detached(row, before.attachments[place])
                        && after == (EndRows {
                        attachments: before.attachments.insert(place, row),
                        ..before
                    }),
                    _ => false,
                }
            } else {
                reply == Reply::Attachment(None) && after == before
            }
        },
        Statement::LockRequestLeases { request_id } => after == before && match reply {
            Reply::Leases(listed) => {
                &&& forall|i: int|
                    0 <= i < listed@.len() ==> before.leases.contains_key(
                        (#[trigger] listed@[i]).lease_id@,
                    ) && before.leases[listed@[i].lease_id@] == listed@[i]
                        && listed@[i].owner_kind@ == "request"@ && listed@[i].owner_id@
                        == request_id@
                &&& forall|id: Seq<char>| #[trigger]
                    before.leases.contains_key(id) && before.leases[id].owner_kind@ == "request"@
                        && before.leases[id].owner_id@ == request_id@ ==> is_among(listed@, id)
            },
            _ => false,
        },
        Statement::ReleaseRequestInputLeases { request_id } => match reply {
            Reply::Leases(listed) => {
                &&& reads_are_released(before.leases, after.leases, request_id@)
                &&& after == (EndRows { leases: after.leases, ..before })
                &&& forall|i: int|
                    0 <= i < listed@.len() ==> before.leases.contains_key(
                        (#[trigger] listed@[i]).lease_id@,
                    ) && is_read_by(before.leases[listed@[i].lease_id@], request_id@)
                        && after.leases[listed@[i].lease_id@] == listed@[i]
                &&& forall|id: Seq<char>| #[trigger]
                    before.leases.contains_key(id) && is_read_by(before.leases[id], request_id@)
                        ==> is_among(listed@, id)
            },
            _ => false,
        },
        _ => true,
    }
}

/// The model of the ends of leases.
pub open spec fn on_ends() -> spec_fn(EndRows, Statement, Reply, EndRows) -> bool {
    |before: EndRows, statement: Statement, reply: Reply, after: EndRows|
        ends_change(before, statement, reply, after)
}

/// Every lease can be read.
pub open spec fn are_readable(table: EndRows, limits: WorkerLimits) -> bool {
    forall|id: Seq<char>| #[trigger]
        table.leases.contains_key(id) ==> leases::lease_of(
            table.leases[id],
            limits.maximum_store_path_bytes as nat,
        ) is Some
}

/// The release of expired leases.
pub open spec fn expiring(
    database_url: Seq<char>,
    now: Moment,
    after_lease_id: Option<String>,
    maximum_rows: usize,
    limits: WorkerLimits,
) -> spec_fn(Seq<Reply>) -> Step<Seq<StoreLeaseRecord>, StoreLeaseError> {
    |history: Seq<Reply>|
        leases::expire_step(database_url, now, after_lease_id, maximum_rows, limits, history)
}

/// The first of some leases were released one after the other, and nothing else changed.
pub open spec fn first_are_released(
    before: EndRows,
    after: EndRows,
    listed: Seq<LeaseRow>,
    limits: WorkerLimits,
    released: Seq<StoreLeaseRecord>,
) -> bool {
    &&& released.len() <= listed.len()
    &&& after == (EndRows { leases: after.leases, ..before })
    &&& after.leases.dom() == before.leases.dom()
    &&& forall|i: int|
        0 <= i < released.len() ==> {
            let row = after.leases[(#[trigger] listed[i]).lease_id@];
            &&& is_released(row, listed[i])
            &&& leases::lease_of(row, limits.maximum_store_path_bytes as nat) == Some(released[i])
        }
    &&& forall|id: Seq<char>| #[trigger]
        before.leases.contains_key(id) && !is_among(listed.take(released.len() as int), id)
            ==> after.leases[id] == before.leases[id]
}

proof fn names_differ()
    ensures
        "active"@.len() == 6,
        "released"@.len() == 8,
        "request"@.len() == 7 && "request"@[0] == 'r',
        "session"@.len() == 7 && "session"@[0] == 's',
        "derivation"@.len() == 10,
        "input"@.len() == 5,
        "output"@.len() == 6,
        "transfer"@.len() == 8,
        "attached"@.len() == 8 && "attached"@[0] == 'a',
        "detached"@.len() == 8 && "detached"@[0] == 'd',
        "delivered"@.len() == 9,
{
    reveal_strlit("active");
    reveal_strlit("released");
    reveal_strlit("request");
    reveal_strlit("session");
    reveal_strlit("derivation");
    reveal_strlit("input");
    reveal_strlit("output");
    reveal_strlit("transfer");
    reveal_strlit("attached");
    reveal_strlit("detached");
    reveal_strlit("delivered");
}

proof fn one_is_released(
    first: EndRows,
    before: EndRows,
    after: EndRows,
    reply: Reply,
    lease_id: String,
    listed: Seq<LeaseRow>,
    limits: WorkerLimits,
    released: Seq<StoreLeaseRecord>,
)
    requires
        released.len() < listed.len(),
        forall|i: int|
            0 <= i < listed.len() ==> first.leases.contains_key((#[trigger] listed[i]).lease_id@)
                && first.leases[listed[i].lease_id@] == listed[i] && listed[i].state@ == "active"@,
        forall|i: int, j: int|
            0 <= i < j < listed.len() ==> (#[trigger] listed[i]).lease_id@ != (
            #[trigger] listed[j]).lease_id@,
        are_readable(first, limits),
        first_are_released(first, before, listed, limits, released),
        lease_id == listed[released.len() as int].lease_id,
        ends_change(before, Statement::ReleaseActiveLease { lease_id }, reply, after),
    ensures
        reply matches Reply::Lease(Some(row)) && {
            let read = leases::lease_of(row, limits.maximum_store_path_bytes as nat);
            &&& read is Some
            &&& first_are_released(first, after, listed, limits, released.push(read->0))
        },
{
    let maximum = limits.maximum_store_path_bytes as nat;
    let next = released.len() as int;
    let id = listed[next].lease_id@;
    let earlier = listed.take(next);
    let longer = listed.take(next + 1);
    assert(first.leases.contains_key(id));
    assert(!is_among(earlier, id)) by {
        if is_among(earlier, id) {
            let i = choose|i: int| 0 <= i < earlier.len() && (#[trigger] earlier[i]).lease_id@ == id;
            assert(listed[i].lease_id@ != listed[next].lease_id@);
        }
    }
    assert(before.leases[id] == listed[next]);
    assert(before.leases.contains_key(id));
    let row = reply->Lease_0->0;
    rows::leases::released_lease_is_read(row, listed[next], maximum);
    let all = released.push(leases::lease_of(row, maximum)->0);
    assert(all.len() == next + 1);
    assert forall|i: int| 0 <= i < all.len() implies {
        let found = after.leases[(#[trigger] listed[i]).lease_id@];
        &&& is_released(found, listed[i])
        &&& leases::lease_of(found, maximum) == Some(all[i])
    } by {
        if i < next {
            assert(listed[i].lease_id@ != listed[next].lease_id@);
        }
    }
    assert forall|one: Seq<char>| #[trigger]
        first.leases.contains_key(one) && !is_among(longer, one) implies after.leases[one]
        == first.leases[one] by {
        assert(longer[next].lease_id@ == id);
        if is_among(earlier, one) {
            let i = choose|i: int| 0 <= i < earlier.len() && (#[trigger] earlier[i]).lease_id@ == one;
            assert(longer[i].lease_id@ == one);
        }
    }
    assert(after.leases.dom() =~= first.leases.dom());
}

proof fn rest_is_released(
    operation: spec_fn(Seq<Reply>) -> Step<Seq<StoreLeaseRecord>, StoreLeaseError>,
    database_url: Seq<char>,
    now: Moment,
    after_lease_id: Option<String>,
    maximum_rows: usize,
    tables: Seq<EndRows>,
    history: Seq<Reply>,
    limits: WorkerLimits,
    released: Seq<StoreLeaseRecord>,
)
    requires
        operation == expiring(database_url, now, after_lease_id, maximum_rows, limits),
        rows::ran(operation, on_ends(), tables, history),
        !text::is_blank(database_url),
        1 <= maximum_rows <= 256,
        now >= 0,
        leases::is_place(after_lease_id),
        history.len() >= 2,
        history[0] is Done,
        history[1] is Leases,
        are_readable(tables[0], limits),
        ({
            let listed = history[1]->Leases_0@;
            let at = 2 + released.len();
            &&& released.len() <= listed.len()
            &&& at <= history.len()
            &&& forall|i: int|
                0 <= i < listed.len() ==> tables[0].leases.contains_key(
                    (#[trigger] listed[i]).lease_id@,
                ) && tables[0].leases[listed[i].lease_id@] == listed[i] && is_expired(
                    tables[0],
                    listed[i].lease_id@,
                    now,
                    after_lease_id,
                )
            &&& forall|i: int, j: int|
                0 <= i < j < listed.len() ==> (#[trigger] listed[i]).lease_id@ != (
                #[trigger] listed[j]).lease_id@
            &&& leases::expired_leases(history[1], limits.maximum_store_path_bytes as nat)
                matches Some(selected) && selected.len() == listed.len() && forall|i: int|
                0 <= i < listed.len() ==> (#[trigger] selected[i]).lease_id == listed[i].lease_id
            &&& first_are_released(tables[0], tables[at as int], listed, limits, released)
            &&& leases::replied_leases(
                history.subrange(2, at as int),
                StoreLeaseFailure::Query,
                limits.maximum_store_path_bytes as nat,
            ) == Ok::<Seq<StoreLeaseRecord>, StoreLeaseFailure>(released)
        }),
    ensures
        operation(history) matches Step::Finish(Ok(all)) && all.len()
            == history[1]->Leases_0@.len() && first_are_released(
            tables[0],
            tables.last(),
            history[1]->Leases_0@,
            limits,
            all,
        ),
    decreases history[1]->Leases_0@.len() - released.len(),
{
    let listed = history[1]->Leases_0@;
    let maximum = limits.maximum_store_path_bytes as nat;
    let at = 2 + released.len() as int;
    let begun = history.take(at);
    assert(begun.subrange(2, at) =~= history.subrange(2, at));
    assert(begun[0] == history[0] && begun[1] == history[1]);
    let selected = leases::expired_leases(history[1], maximum)->0;
    if released.len() < listed.len() {
        assert(selected[released.len() as int].lease_id == listed[released.len() as int].lease_id);
        next_is_done(operation, on_ends(), tables, history, at);
        one_is_released(
            tables[0],
            tables[at],
            tables[at + 1],
            history[at],
            listed[released.len() as int].lease_id,
            listed,
            limits,
            released,
        );
        let row = history[at]->Lease_0->0;
        let longer = released.push(leases::lease_of(row, maximum)->0);
        let replies = history.subrange(2, at + 1);
        assert(replies.drop_last() =~= history.subrange(2, at));
        assert(replies.last() == history[at]);
        rest_is_released(
            operation,
            database_url,
            now,
            after_lease_id,
            maximum_rows,
            tables,
            history,
            limits,
            longer,
        );
    } else {
        next_is_done(operation, on_ends(), tables, history, at);
        let ended = history.take(at + 1);
        assert(ended.subrange(2, at) =~= history.subrange(2, at));
        assert(ended[0] == history[0] && ended[1] == history[1] && ended[at] == history[at]);
        end_is_reached(operation, on_ends(), tables, history, at + 1);
    }
}

/// Leases on outputs whose time is over are released, those after a place and in the order of their
/// names, and are what was returned. One is left out only where there are more than may be released
/// at once, and all other rows are as before.
pub proof fn expired_outputs_are_released(
    database_url: Seq<char>,
    now: Moment,
    after_lease_id: Option<String>,
    maximum_rows: usize,
    limits: WorkerLimits,
    tables: Seq<EndRows>,
    history: Seq<Reply>,
)
    requires
        !text::is_blank(database_url),
        1 <= maximum_rows <= 256,
        now >= 0,
        after_lease_id is Some ==> database::is_component(after_lease_id->0@),
        are_readable(tables[0], limits),
        rows::ran(
            expiring(database_url, now, after_lease_id, maximum_rows, limits),
            on_ends(),
            tables,
            history,
        ),
    ensures
        leases::expire_step(
            database_url,
            now,
            after_lease_id,
            maximum_rows,
            limits,
            history,
        ) matches Step::Finish(Ok(released)) && {
            &&& released.len() <= maximum_rows
            &&& forall|i: int|
                0 <= i < released.len() ==> {
                    let id = (#[trigger] released[i]).lease_id@;
                    &&& is_expired(tables[0], id, now, after_lease_id)
                    &&& is_released(tables.last().leases[id], tables[0].leases[id])
                    &&& is_recorded(released[i], tables.last().leases[id])
                }
            &&& forall|i: int, j: int|
                0 <= i < j < released.len() ==> text::precedes(
                    (#[trigger] released[i]).lease_id@,
                    (#[trigger] released[j]).lease_id@,
                )
            &&& forall|id: Seq<char>| #[trigger]
                tables[0].leases.contains_key(id) ==> if is_returned(released, id) {
                    is_expired(tables[0], id, now, after_lease_id)
                } else {
                    &&& tables.last().leases[id] == tables[0].leases[id]
                    &&& is_expired(tables[0], id, now, after_lease_id) ==> released.len()
                        == maximum_rows
                }
            &&& tables.last().leases.dom() == tables[0].leases.dom()
            &&& tables.last().requests == tables[0].requests
            &&& tables.last().attachments == tables[0].attachments
        },
{
    let operation = expiring(database_url, now, after_lease_id, maximum_rows, limits);
    let maximum = limits.maximum_store_path_bytes as nat;
    names_differ();
    next_is_done(operation, on_ends(), tables, history, 0);
    next_is_done(operation, on_ends(), tables, history, 1);
    let listed = history[1]->Leases_0@;
    assert forall|i: int| 0 <= i < listed.len() implies leases::lease_of(
        #[trigger] listed[i],
        maximum,
    ) is Some && is_expired(tables[0], listed[i].lease_id@, now, after_lease_id) by {
        assert(tables[0].leases.contains_key(listed[i].lease_id@));
    }
    assert forall|i: int, j: int| 0 <= i < j < listed.len() implies (
    #[trigger] listed[i]).lease_id@ != (#[trigger] listed[j]).lease_id@ by {
        text::order_is_strict(listed[i].lease_id@, listed[j].lease_id@);
    }
    let records = leases::leases_of(listed, maximum)->0;
    assert forall|i: int| 0 <= i < records.len() implies leases::is_held_output(
        #[trigger] records[i],
    ) by {
        assert(leases::lease_of(listed[i], maximum) == Some(records[i]));
    }
    assert(history.subrange(2, 2) =~= Seq::<Reply>::empty());
    let none = Seq::<StoreLeaseRecord>::empty();
    assert(listed.take(0) =~= Seq::<LeaseRow>::empty());
    rest_is_released(
        operation,
        database_url,
        now,
        after_lease_id,
        maximum_rows,
        tables,
        history,
        limits,
        none,
    );
    let released = operation(history)->Finish_0->Ok_0;
    assert(listed.take(released.len() as int) =~= listed);
    assert forall|i: int| 0 <= i < released.len() implies (#[trigger] released[i]).lease_id@
        == listed[i].lease_id@ && is_recorded(
        released[i],
        tables.last().leases[listed[i].lease_id@],
    ) by {
        assert(is_released(tables.last().leases[listed[i].lease_id@], listed[i]));
    }
    assert forall|i: int, j: int| 0 <= i < j < released.len() implies text::precedes(
        (#[trigger] released[i]).lease_id@,
        (#[trigger] released[j]).lease_id@,
    ) by {
        assert(text::precedes(listed[i].lease_id@, listed[j].lease_id@));
    }
    assert forall|id: Seq<char>| #[trigger]
        tables[0].leases.contains_key(id) implies if is_returned(released, id) {
        is_expired(tables[0], id, now, after_lease_id)
    } else {
        &&& tables.last().leases[id] == tables[0].leases[id]
        &&& is_expired(tables[0], id, now, after_lease_id) ==> released.len() == maximum_rows
    } by {
        if is_returned(released, id) {
            let i = choose|i: int| 0 <= i < released.len() && (#[trigger] released[i]).lease_id@ == id;
            assert(listed[i].lease_id@ == id);
        } else {
            if is_among(listed, id) {
                let i = choose|i: int|
                    0 <= i < listed.len() && (#[trigger] listed[i]).lease_id@ == id;
                assert(released[i].lease_id@ == id);
            }
        }
    }
}

/// A lease is among those returned.
pub open spec fn is_returned(released: Seq<StoreLeaseRecord>, id: Seq<char>) -> bool {
    exists|i: int| 0 <= i < released.len() && (#[trigger] released[i]).lease_id@ == id
}

/// The reading of released leases.
pub open spec fn paging(
    database_url: Seq<char>,
    after_lease_id: Option<String>,
    maximum_rows: usize,
    limits: WorkerLimits,
) -> spec_fn(Seq<Reply>) -> Step<Seq<StoreLeaseRecord>, StoreLeaseError> {
    |history: Seq<Reply>|
        leases::page_step(database_url, after_lease_id, maximum_rows, limits, history)
}

/// Released leases of requests are read as they are recorded, those after a place and in the order
/// of their names. One is left out only where there are more than fit on a page.
pub proof fn released_leases_are_read(
    database_url: Seq<char>,
    after_lease_id: Option<String>,
    maximum_rows: usize,
    limits: WorkerLimits,
    tables: Seq<EndRows>,
    history: Seq<Reply>,
)
    requires
        !text::is_blank(database_url),
        maximum_rows >= 1,
        after_lease_id is Some ==> database::is_component(after_lease_id->0@),
        are_readable(tables[0], limits),
        rows::ran(
            paging(database_url, after_lease_id, maximum_rows, limits),
            on_ends(),
            tables,
            history,
        ),
    ensures
        ({
            let most = if maximum_rows < 256 {
                maximum_rows as int
            } else {
                256
            };
            leases::page_step(
                database_url,
                after_lease_id,
                maximum_rows,
                limits,
                history,
            ) matches Step::Finish(Ok(read)) && {
                &&& read.len() <= most
                &&& forall|i: int|
                    0 <= i < read.len() ==> is_over(
                        tables[0],
                        (#[trigger] read[i]).lease_id@,
                        after_lease_id,
                    ) && is_recorded(read[i], tables[0].leases[read[i].lease_id@])
                &&& forall|i: int, j: int|
                    0 <= i < j < read.len() ==> text::precedes(
                        (#[trigger] read[i]).lease_id@,
                        (#[trigger] read[j]).lease_id@,
                    )
                &&& forall|id: Seq<char>| #[trigger]
                    tables[0].leases.contains_key(id) && is_over(tables[0], id, after_lease_id)
                        ==> read.len() == most || is_returned(read, id)
            }
        }),
        tables.last() == tables[0],
{
    let operation = paging(database_url, after_lease_id, maximum_rows, limits);
    let maximum = limits.maximum_store_path_bytes as nat;
    names_differ();
    next_is_done(operation, on_ends(), tables, history, 0);
    next_is_done(operation, on_ends(), tables, history, 1);
    let listed = history[1]->Leases_0@;
    assert forall|i: int| 0 <= i < listed.len() implies leases::lease_of(
        #[trigger] listed[i],
        maximum,
    ) is Some && is_over(tables[0], listed[i].lease_id@, after_lease_id) by {
        assert(tables[0].leases.contains_key(listed[i].lease_id@));
    }
    let records = leases::leases_of(listed, maximum)->0;
    assert forall|i: int| 0 <= i < records.len() implies leases::is_released_request_lease(
        #[trigger] records[i],
    ) by {
        assert(leases::lease_of(listed[i], maximum) == Some(records[i]));
    }
    end_is_reached(operation, on_ends(), tables, history, 2);
    assert forall|i: int, j: int| 0 <= i < j < records.len() implies text::precedes(
        (#[trigger] records[i]).lease_id@,
        (#[trigger] records[j]).lease_id@,
    ) by {
        assert(text::precedes(listed[i].lease_id@, listed[j].lease_id@));
    }
    assert forall|i: int| 0 <= i < records.len() implies is_over(
        tables[0],
        (#[trigger] records[i]).lease_id@,
        after_lease_id,
    ) && is_recorded(records[i], tables[0].leases[records[i].lease_id@]) by {
        assert(leases::lease_of(listed[i], maximum) == Some(records[i]));
    }
    assert forall|id: Seq<char>| #[trigger]
        tables[0].leases.contains_key(id) && is_over(
            tables[0],
            id,
            after_lease_id,
        ) implies records.len() == (if maximum_rows < 256 {
        maximum_rows as int
    } else {
        256
    }) || is_returned(records, id) by {
        if is_among(listed, id) {
            let i = choose|i: int| 0 <= i < listed.len() && (#[trigger] listed[i]).lease_id@ == id;
            assert(records[i].lease_id@ == id);
        }
    }
}

/// The detachment of a request.
pub open spec fn detaching(
    database_url: Seq<char>,
    session_id: String,
    request_id: String,
    limits: WorkerLimits,
) -> spec_fn(Seq<Reply>) -> Step<Seq<StoreLeaseRecord>, StoreLeaseError> {
    |history: Seq<Reply>|
        leases::detach_step(database_url, session_id, request_id, limits, history)
}

/// Of what was returned nothing is lost and nothing is made up when it is put in order.
proof fn ordered_has_the_same(leases: Seq<StoreLeaseRecord>, lease: StoreLeaseRecord)
    ensures
        leases::ordered(leases).len() == leases.len(),
        leases::ordered(leases).contains(lease) <==> leases.contains(lease),
    decreases leases.len(),
{
    if leases.len() > 0 {
        let earlier = leases.drop_last();
        ordered_has_the_same(earlier, lease);
        inserted_has_the_same(leases::ordered(earlier), leases.last(), lease);
        assert(leases =~= earlier.push(leases.last()));
        if leases.contains(lease) && lease != leases.last() {
            let i = choose|i: int| 0 <= i < leases.len() && leases[i] == lease;
            assert(earlier[i] == lease);
        }
        if earlier.contains(lease) {
            let i = choose|i: int| 0 <= i < earlier.len() && earlier[i] == lease;
            assert(leases[i] == lease);
        }
        assert(leases[leases.len() - 1] == leases.last());
    }
}

proof fn inserted_has_the_same(
    sorted: Seq<StoreLeaseRecord>,
    added: StoreLeaseRecord,
    lease: StoreLeaseRecord,
)
    ensures
        leases::inserted(sorted, added).len() == sorted.len() + 1,
        leases::inserted(sorted, added).contains(lease) <==> sorted.contains(lease) || lease
            == added,
    decreases sorted.len(),
{
    let result = leases::inserted(sorted, added);
    if sorted.len() > 0 && text::precedes(added.lease_id@, sorted.last().lease_id@) {
        let earlier = sorted.drop_last();
        inserted_has_the_same(earlier, added, lease);
        let inner = leases::inserted(earlier, added);
        assert(result == inner.push(sorted.last()));
        push_has(inner, sorted.last(), lease);
        push_has(earlier, sorted.last(), lease);
        assert(sorted =~= earlier.push(sorted.last()));
    } else {
        push_has(sorted, added, lease);
    }
}

proof fn push_has(list: Seq<StoreLeaseRecord>, added: StoreLeaseRecord, lease: StoreLeaseRecord)
    ensures
        list.push(added).contains(lease) <==> list.contains(lease) || lease == added,
{
    let longer = list.push(added);
    assert(longer[list.len() as int] == added);
    if list.contains(lease) {
        let i = choose|i: int| 0 <= i < list.len() && list[i] == lease;
        assert(longer[i] == lease);
    }
    if longer.contains(lease) && lease != added {
        let i = choose|i: int| 0 <= i < longer.len() && longer[i] == lease;
        assert(list[i] == lease);
    }
}

/// What was returned are the leases that were released, as they are recorded then.
pub open spec fn are_returned(
    before: Map<Seq<char>, LeaseRow>,
    after: Map<Seq<char>, LeaseRow>,
    request_id: Seq<char>,
    released: Seq<StoreLeaseRecord>,
) -> bool {
    &&& forall|i: int|
        0 <= i < released.len() ==> {
            let id = (#[trigger] released[i]).lease_id@;
            &&& before.contains_key(id)
            &&& is_read_by(before[id], request_id)
            &&& is_recorded(released[i], after[id])
        }
    &&& forall|id: Seq<char>| #[trigger]
        before.contains_key(id) && is_read_by(before[id], request_id) ==> is_returned(released, id)
}

/// Leases that the database released are returned.
proof fn released_are_returned(
    before: Map<Seq<char>, LeaseRow>,
    after: Map<Seq<char>, LeaseRow>,
    request_id: Seq<char>,
    listed: Seq<LeaseRow>,
    maximum_path_bytes: nat,
    released: Seq<StoreLeaseRecord>,
)
    requires
        leases::leases_of(listed, maximum_path_bytes) is Some,
        released == leases::ordered(leases::leases_of(listed, maximum_path_bytes)->0),
        forall|i: int|
            0 <= i < listed.len() ==> before.contains_key((#[trigger] listed[i]).lease_id@)
                && is_read_by(before[listed[i].lease_id@], request_id)
                && after[listed[i].lease_id@] == listed[i],
        forall|id: Seq<char>| #[trigger]
            before.contains_key(id) && is_read_by(before[id], request_id) ==> is_among(listed, id),
    ensures
        are_returned(before, after, request_id, released),
{
    let records = leases::leases_of(listed, maximum_path_bytes)->0;
    assert forall|i: int| 0 <= i < released.len() implies {
        let id = (#[trigger] released[i]).lease_id@;
        &&& before.contains_key(id)
        &&& is_read_by(before[id], request_id)
        &&& is_recorded(released[i], after[id])
    } by {
        ordered_has_the_same(records, released[i]);
        let j = choose|j: int| 0 <= j < records.len() && records[j] == released[i];
        assert(leases::lease_of(listed[j], maximum_path_bytes) == Some(records[j]));
        assert(before.contains_key(listed[j].lease_id@));
    }
    assert forall|id: Seq<char>| #[trigger]
        before.contains_key(id) && is_read_by(before[id], request_id) implies is_returned(
        released,
        id,
    ) by {
        let j = choose|j: int| 0 <= j < listed.len() && (#[trigger] listed[j]).lease_id@ == id;
        ordered_has_the_same(records, records[j]);
        assert(records.contains(records[j]));
        let i = choose|i: int| 0 <= i < released.len() && released[i] == records[j];
        assert(released[i].lease_id@ == id);
    }
}

/// A request that is attached is detached, and with that every lease on what its build reads is
/// released and returned, while those on its outputs stay and all else is as before. A request that
/// is not there or not attached is refused, and nothing changes.
#[verifier::rlimit(60)]
pub proof fn detached_request_releases_what_it_read(
    database_url: Seq<char>,
    session_id: String,
    request_id: String,
    limits: WorkerLimits,
    tables: Seq<EndRows>,
    history: Seq<Reply>,
)
    requires
        !text::is_blank(database_url),
        database::is_component(session_id@),
        database::is_component(request_id@),
        tables[0].requests.contains_key(request_id@) ==> build_requests::request_of(
            tables[0].requests[request_id@],
            limits.maximum_store_path_bytes as nat,
        ) is Some,
        tables[0].attachments.contains_key((session_id@, request_id@)) ==> attachments::attachment_of(
            tables[0].attachments[(session_id@, request_id@)],
        ) is Some,
        rows::ran(
            detaching(database_url, session_id, request_id, limits),
            on_ends(),
            tables,
            history,
        ),
    ensures
        ({
            let step = leases::detach_step(
                database_url,
                session_id,
                request_id,
                limits,
                history,
            );
            let place = (session_id@, request_id@);
            let before = tables[0];
            let after = tables.last();
            if !before.requests.contains_key(request_id@)
                || !before.attachments.contains_key(place) {
                step == leases::failed::<Seq<StoreLeaseRecord>>(StoreLeaseFailure::Missing) && after
                    == before
            } else if before.attachments[place].state@ != "attached"@ {
                step == leases::failed::<Seq<StoreLeaseRecord>>(StoreLeaseFailure::InvalidState)
                    && after == before
            } else {
                step matches Step::Finish(Ok(released)) ==> {
                    &&& is_detached(after.attachments[place], before.attachments[place])
                    &&& after.attachments == before.attachments.insert(
                        place,
                        after.attachments[place],
                    )
                    &&& reads_are_released(before.leases, after.leases, request_id@)
                    &&& are_returned(before.leases, after.leases, request_id@, released)
                    &&& after.requests == before.requests
                }
            }
        }),
{
    let operation = detaching(database_url, session_id, request_id, limits);
    let maximum = limits.maximum_store_path_bytes as nat;
    let place = (session_id@, request_id@);
    names_differ();
    next_is_done(operation, on_ends(), tables, history, 0);
    next_is_done(operation, on_ends(), tables, history, 1);
    if !tables[0].requests.contains_key(request_id@) {
        end_is_reached(operation, on_ends(), tables, history, 2);
    } else {
        next_is_done(operation, on_ends(), tables, history, 2);
        if !tables[0].attachments.contains_key(place) || tables[0].attachments[place].state@
            != "attached"@ {
            end_is_reached(operation, on_ends(), tables, history, 3);
        } else {
            next_is_done(operation, on_ends(), tables, history, 3);
            if operation(history) is Finish && operation(history)->Finish_0 is Ok {
                assert(history.take(history.len() as int) =~= history);
                next_is_done(operation, on_ends(), tables, history, 4);
                next_is_done(operation, on_ends(), tables, history, 5);
                next_is_done(operation, on_ends(), tables, history, 6);
                end_is_reached(operation, on_ends(), tables, history, 7);
                released_are_returned(
                    tables[5].leases,
                    tables[6].leases,
                    request_id@,
                    history[5]->Leases_0@,
                    maximum,
                    operation(history)->Finish_0->Ok_0,
                );
            }
        }
    }
}

/// The release of the leases of a request without attachments.
pub open spec fn releasing_unattached(
    database_url: Seq<char>,
    request_id: String,
    limits: WorkerLimits,
) -> spec_fn(Seq<Reply>) -> Step<Seq<StoreLeaseRecord>, StoreLeaseError> {
    |history: Seq<Reply>| leases::unattached_step(database_url, request_id, limits, history)
}

proof fn unattached_release_is_done(
    database_url: Seq<char>,
    request_id: String,
    limits: WorkerLimits,
    tables: Seq<EndRows>,
    history: Seq<Reply>,
)
    requires
        rows::ran(
            releasing_unattached(database_url, request_id, limits),
            on_ends(),
            tables,
            history,
        ),
        leases::unattached_step(database_url, request_id, limits, history) is Finish,
        leases::unattached_step(database_url, request_id, limits, history)->Finish_0 is Ok,
        history.len() >= 3,
        tables[3] == tables[0],
        history[2] == Reply::Found(false),
    ensures
        reads_are_released(tables[0].leases, tables.last().leases, request_id@),
        are_returned(
            tables[0].leases,
            tables.last().leases,
            request_id@,
            leases::unattached_step(database_url, request_id, limits, history)->Finish_0->Ok_0,
        ),
        tables.last().requests == tables[0].requests,
        tables.last().attachments == tables[0].attachments,
{
    let operation = releasing_unattached(database_url, request_id, limits);
    let maximum = limits.maximum_store_path_bytes as nat;
    assert(history.take(history.len() as int) =~= history);
    assert(history.len() >= 6);
    assert(operation(history.take(3)) is Perform);
    next_is_done(operation, on_ends(), tables, history, 3);
    assert(operation(history.take(4)) is Perform);
    next_is_done(operation, on_ends(), tables, history, 4);
    assert(operation(history.take(5)) is Perform);
    next_is_done(operation, on_ends(), tables, history, 5);
    end_is_reached(operation, on_ends(), tables, history, 6);
    released_are_returned(
        tables[4].leases,
        tables[5].leases,
        request_id@,
        history[4]->Leases_0@,
        maximum,
        operation(history)->Finish_0->Ok_0,
    );
}

/// Of a request that no session was attached to, every lease on what its build reads is released
/// and returned, while those on its outputs stay and all else is as before. One that is not there,
/// or that a session was attached to, is refused, and nothing changes.
#[verifier::rlimit(60)]
pub proof fn unattached_request_releases_what_it_read(
    database_url: Seq<char>,
    request_id: String,
    limits: WorkerLimits,
    tables: Seq<EndRows>,
    history: Seq<Reply>,
)
    requires
        !text::is_blank(database_url),
        database::is_component(request_id@),
        tables[0].requests.contains_key(request_id@) ==> build_requests::request_of(
            tables[0].requests[request_id@],
            limits.maximum_store_path_bytes as nat,
        ) is Some,
        rows::ran(
            releasing_unattached(database_url, request_id, limits),
            on_ends(),
            tables,
            history,
        ),
    ensures
        ({
            let step = leases::unattached_step(database_url, request_id, limits, history);
            let before = tables[0];
            let after = tables.last();
            if !before.requests.contains_key(request_id@) {
                step == leases::failed::<Seq<StoreLeaseRecord>>(StoreLeaseFailure::Missing) && after
                    == before
            } else if was_attached(before, request_id@) {
                step == leases::failed::<Seq<StoreLeaseRecord>>(StoreLeaseFailure::InvalidState)
                    && after == before
            } else {
                step matches Step::Finish(Ok(released)) ==> {
                    &&& reads_are_released(before.leases, after.leases, request_id@)
                    &&& are_returned(before.leases, after.leases, request_id@, released)
                    &&& after.requests == before.requests
                    &&& after.attachments == before.attachments
                }
            }
        }),
{
    let operation = releasing_unattached(database_url, request_id, limits);
    let maximum = limits.maximum_store_path_bytes as nat;
    names_differ();
    next_is_done(operation, on_ends(), tables, history, 0);
    next_is_done(operation, on_ends(), tables, history, 1);
    if !tables[0].requests.contains_key(request_id@) {
        end_is_reached(operation, on_ends(), tables, history, 2);
    } else {
        next_is_done(operation, on_ends(), tables, history, 2);
        if was_attached(tables[0], request_id@) {
            end_is_reached(operation, on_ends(), tables, history, 3);
        } else {
            if operation(history) is Finish && operation(history)->Finish_0 is Ok {
                unattached_release_is_done(database_url, request_id, limits, tables, history);
            }
        }
    }
}

} // verus!
