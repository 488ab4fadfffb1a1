//! Attachments on their rows: one that is made ends once.

use crate::persistence::attachments::{
    self, RequestAttachment, RequestAttachmentError, RequestAttachmentFailure,
    RequestAttachmentState,
};
use crate::persistence::database::{AttachmentRow, DatabaseFault, Reply, Statement, Step};
use crate::persistence::rows::{self, end_is_reached, next_is_done};
use vstd::prelude::*;

verus! {

/// Attachments by their sessions and requests.
pub type AttachmentRows = Map<(Seq<char>, Seq<char>), AttachmentRow>;

/// An attached request is now in another state; what ended did so no earlier than it was made.
pub open spec fn is_ended(row: AttachmentRow, before: AttachmentRow, state: Seq<char>) -> bool {
    let detached = state == "detached"@;
    let ended_at = if detached {
        row.detached_at
    } else {
        row.delivered_at
    };
    &&& row.session_id@ == before.session_id@
    &&& row.request_id@ == before.request_id@
    &&& row.state@ == state
    &&& row.attached_at == before.attached_at
    &&& ended_at is Some
    &&& ended_at->0 >= before.attached_at
    &&& if detached {
        row.delivered_at == before.delivered_at
    } else {
        row.detached_at == before.detached_at
    }
}

/// What a statement does that ends an attachment if it is there and attached.
pub open spec fn ends_attached(
    before: AttachmentRows,
    session_id: Seq<char>,
    request_id: Seq<char>,
    state: Seq<char>,
    reply: Reply,
    after: AttachmentRows,
) -> bool {
    let place = (session_id, request_id);
    if before.contains_key(place) && before[place].state@ == "attached"@ {
        match reply {
            Reply::Attachment(Some(row)) => is_ended(row, before[place], state) && after
                == before.insert(place, row),
            _ => false,
        }
    } else {
        reply == Reply::Attachment(None) && after == before
    }
}

/// What statements do to the attachments.
pub open spec fn attachments_change(
    before: AttachmentRows,
    statement: Statement,
    reply: Reply,
    after: AttachmentRows,
) -> bool {
    match statement {
        Statement::Begin | Statement::Commit => reply is Done && after == before,
        Statement::HoldSession { .. } => reply is Session && after == before,
        Statement::ReadBuildRequest { .. } => reply is BuildRequest && after == before,
        Statement::Attach { session_id, request_id } => {
            let place = (session_id@, request_id@);
            if before.contains_key(place) {
                reply == Reply::Failed(DatabaseFault::UniqueViolation) && after == before
            } else {
                match reply {
                    Reply::Attachment(Some(row)) => {
                        &&& row.session_id@ == session_id@
                        &&& row.request_id@ == request_id@
                        &&& row.state@ == "attached"@
                        &&& row.detached_at is None
                        &&& row.delivered_at is None
                        &&& after == before.insert(place, row)
                    },
                    _ => false,
                }
            }
        },
        Statement::DetachAttached { session_id, request_id } => ends_attached(
            before,
            session_id@,
            request_id@,
            "detached"@,
            reply,
            after,
        ),
        Statement::DeliverAttached { session_id, request_id } => ends_attached(
            before,
            session_id@,
            request_id@,
            "delivered"@,
            reply,
            after,
        ),
        Statement::ReadAttachmentState { session_id, request_id } => {
            let place = (session_id@, request_id@);
            &&& after == before
            &&& match reply {
                Reply::Text(None) => !before.contains_key(place),
                Reply::Text(Some(Some(state))) => before.contains_key(place) && state@
                    == before[place].state@,
                _ => false,
            }
        },
        _ => true,
    }
}

/// The model of the attachments.
pub open spec fn on_attachments() -> spec_fn(
    AttachmentRows,
    Statement,
    Reply,
    AttachmentRows,
) -> bool {
    |before: AttachmentRows, statement: Statement, reply: Reply, after: AttachmentRows|
        attachments_change(before, statement, reply, after)
}

/// The attachment of a request to a session.
pub open spec fn attaching(
    database_url: Seq<char>,
    session_id: String,
    request_id: String,
    maximum_path_bytes: nat,
) -> spec_fn(Seq<Reply>) -> Step<RequestAttachment, RequestAttachmentError> {
    |history: Seq<Reply>|
        attachments::attach_step(
            database_url,
            session_id,
            request_id,
            maximum_path_bytes,
            history,
        )
}

/// The detachment of a request from a session.
pub open spec fn detaching(
    database_url: Seq<char>,
    session_id: String,
    request_id: String,
) -> spec_fn(Seq<Reply>) -> Step<RequestAttachment, RequestAttachmentError> {
    |history: Seq<Reply>|
        attachments::detach_step(database_url, session_id, request_id, history)
}

/// The delivery of the result of a request to a session.
pub open spec fn delivering(
    database_url: Seq<char>,
    session_id: String,
    request_id: String,
) -> spec_fn(Seq<Reply>) -> Step<RequestAttachment, RequestAttachmentError> {
    |history: Seq<Reply>|
        attachments::delivery_step(database_url, session_id, request_id, history)
}

proof fn names_differ()
    ensures
        "attached"@ != "detached"@,
        "attached"@ != "delivered"@,
        "detached"@ != "delivered"@,
{
    reveal_strlit("attached");
    reveal_strlit("detached");
    reveal_strlit("delivered");
    assert("attached"@[0] == 'a');
    assert("detached"@[0] == 'd');
    assert("delivered"@[0] == 'd');
    assert("detached"@.len() == 8);
    assert("delivered"@.len() == 9);
}

/// What an attachment leaves: the request is attached as was returned.
proof fn attached(
    database_url: Seq<char>,
    session_id: String,
    request_id: String,
    maximum_path_bytes: nat,
    tables: Seq<AttachmentRows>,
    history: Seq<Reply>,
    attachment: RequestAttachment,
)
    requires
        rows::ran(
            attaching(database_url, session_id, request_id, maximum_path_bytes),
            on_attachments(),
            tables,
            history,
        ),
        attachments::attach_step(
            database_url,
            session_id,
            request_id,
            maximum_path_bytes,
            history,
        ) == Step::<RequestAttachment, RequestAttachmentError>::Finish(Ok(attachment)),
    ensures
        tables.last().contains_key((session_id@, request_id@)),
        attachments::attachment_of(tables.last()[(session_id@, request_id@)]) == Some(attachment),
        tables.last()[(session_id@, request_id@)].session_id@ == session_id@,
        tables.last()[(session_id@, request_id@)].request_id@ == request_id@,
        attachment.state == RequestAttachmentState::Attached,
{
    let operation = attaching(database_url, session_id, request_id, maximum_path_bytes);
    names_differ();
    next_is_done(operation, on_attachments(), tables, history, 0);
    next_is_done(operation, on_attachments(), tables, history, 1);
    next_is_done(operation, on_attachments(), tables, history, 2);
    next_is_done(operation, on_attachments(), tables, history, 3);
    next_is_done(operation, on_attachments(), tables, history, 4);
    end_is_reached(operation, on_attachments(), tables, history, 5);
}

/// A request that was attached is detached: when it was attached stays as it was, it is detached no
/// earlier, and not delivered.
pub proof fn attached_request_is_detached(
    database_url: Seq<char>,
    session_id: String,
    request_id: String,
    maximum_path_bytes: nat,
    tables: Seq<AttachmentRows>,
    history: Seq<Reply>,
    attachment: RequestAttachment,
    later_tables: Seq<AttachmentRows>,
    later_history: Seq<Reply>,
)
    requires
        rows::ran(
            attaching(database_url, session_id, request_id, maximum_path_bytes),
            on_attachments(),
            tables,
            history,
        ),
        attachments::attach_step(
            database_url,
            session_id,
            request_id,
            maximum_path_bytes,
            history,
        ) == Step::<RequestAttachment, RequestAttachmentError>::Finish(Ok(attachment)),
        rows::ran(
            detaching(database_url, session_id, request_id),
            on_attachments(),
            later_tables,
            later_history,
        ),
        later_tables[0] == tables.last(),
    ensures
        attachments::detach_step(
            database_url,
            session_id,
            request_id,
            later_history,
        ) matches Step::Finish(Ok(ended)) && {
            &&& ended.session_id@ == session_id@
            &&& ended.request_id@ == request_id@
            &&& ended.state == RequestAttachmentState::Detached
            &&& ended.attached_at == attachment.attached_at
            &&& ended.detached_at is Some
            &&& ended.detached_at->0 >= attachment.attached_at
            &&& ended.delivered_at is None
        },
{
    let operation = detaching(database_url, session_id, request_id);
    names_differ();
    attached(
        database_url,
        session_id,
        request_id,
        maximum_path_bytes,
        tables,
        history,
        attachment,
    );
    next_is_done(operation, on_attachments(), later_tables, later_history, 0);
    next_is_done(operation, on_attachments(), later_tables, later_history, 1);
    next_is_done(operation, on_attachments(), later_tables, later_history, 2);
    end_is_reached(operation, on_attachments(), later_tables, later_history, 3);
}

/// The result of a request that was attached is delivered: when it was attached stays as it was, it
/// is delivered no earlier, and not detached.
pub proof fn attached_request_is_delivered(
    database_url: Seq<char>,
    session_id: String,
    request_id: String,
    maximum_path_bytes: nat,
    tables: Seq<AttachmentRows>,
    history: Seq<Reply>,
    attachment: RequestAttachment,
    later_tables: Seq<AttachmentRows>,
    later_history: Seq<Reply>,
)
    requires
        rows::ran(
            attaching(database_url, session_id, request_id, maximum_path_bytes),
            on_attachments(),
            tables,
            history,
        ),
        attachments::attach_step(
            database_url,
            session_id,
            request_id,
            maximum_path_bytes,
            history,
        ) == Step::<RequestAttachment, RequestAttachmentError>::Finish(Ok(attachment)),
        rows::ran(
            delivering(database_url, session_id, request_id),
            on_attachments(),
            later_tables,
            later_history,
        ),
        later_tables[0] == tables.last(),
    ensures
        attachments::delivery_step(
            database_url,
            session_id,
            request_id,
            later_history,
        ) matches Step::Finish(Ok(ended)) && {
            &&& ended.session_id@ == session_id@
            &&& ended.request_id@ == request_id@
            &&& ended.state == RequestAttachmentState::Delivered
            &&& ended.attached_at == attachment.attached_at
            &&& ended.delivered_at is Some
            &&& ended.delivered_at->0 >= attachment.attached_at
            &&& ended.detached_at is None
        },
{
    let operation = delivering(database_url, session_id, request_id);
    names_differ();
    attached(
        database_url,
        session_id,
        request_id,
        maximum_path_bytes,
        tables,
        history,
        attachment,
    );
    next_is_done(operation, on_attachments(), later_tables, later_history, 0);
    next_is_done(operation, on_attachments(), later_tables, later_history, 1);
    next_is_done(operation, on_attachments(), later_tables, later_history, 2);
    end_is_reached(operation, on_attachments(), later_tables, later_history, 3);
}

/// Once a request is detached, it can be neither detached nor delivered, and stays as it is.
pub proof fn detached_request_stays_so(
    database_url: Seq<char>,
    session_id: String,
    request_id: String,
    tables: Seq<AttachmentRows>,
    history: Seq<Reply>,
    ended: RequestAttachment,
    detach_tables: Seq<AttachmentRows>,
    detach_history: Seq<Reply>,
    delivery_tables: Seq<AttachmentRows>,
    delivery_history: Seq<Reply>,
)
    requires
        rows::ran(
            detaching(database_url, session_id, request_id),
            on_attachments(),
            tables,
            history,
        ),
        attachments::detach_step(database_url, session_id, request_id, history) == Step::<
            RequestAttachment,
            RequestAttachmentError,
        >::Finish(Ok(ended)),
        rows::ran(
            detaching(database_url, session_id, request_id),
            on_attachments(),
            detach_tables,
            detach_history,
        ),
        detach_tables[0] == tables.last(),
        rows::ran(
            delivering(database_url, session_id, request_id),
            on_attachments(),
            delivery_tables,
            delivery_history,
        ),
        delivery_tables[0] == tables.last(),
    ensures
        attachments::detach_step(database_url, session_id, request_id, detach_history)
            == attachments::failed::<RequestAttachment>(RequestAttachmentFailure::InvalidState),
        detach_tables.last() == tables.last(),
        attachments::delivery_step(database_url, session_id, request_id, delivery_history)
            == attachments::failed::<RequestAttachment>(RequestAttachmentFailure::InvalidState),
        delivery_tables.last() == tables.last(),
{
    let operation = detaching(database_url, session_id, request_id);
    names_differ();
    next_is_done(operation, on_attachments(), tables, history, 0);
    next_is_done(operation, on_attachments(), tables, history, 1);
    next_is_done(operation, on_attachments(), tables, history, 2);
    end_is_reached(operation, on_attachments(), tables, history, 3);
    let detachment = detaching(database_url, session_id, request_id);
    next_is_done(detachment, on_attachments(), detach_tables, detach_history, 0);
    next_is_done(detachment, on_attachments(), detach_tables, detach_history, 1);
    next_is_done(detachment, on_attachments(), detach_tables, detach_history, 2);
    end_is_reached(detachment, on_attachments(), detach_tables, detach_history, 3);
    let delivery = delivering(database_url, session_id, request_id);
    next_is_done(delivery, on_attachments(), delivery_tables, delivery_history, 0);
    next_is_done(delivery, on_attachments(), delivery_tables, delivery_history, 1);
    next_is_done(delivery, on_attachments(), delivery_tables, delivery_history, 2);
    end_is_reached(delivery, on_attachments(), delivery_tables, delivery_history, 3);
}

/// Once a request is delivered, it can be neither detached nor delivered, and stays as it is.
pub proof fn delivered_request_stays_so(
    database_url: Seq<char>,
    session_id: String,
    request_id: String,
    tables: Seq<AttachmentRows>,
    history: Seq<Reply>,
    ended: RequestAttachment,
    detach_tables: Seq<AttachmentRows>,
    detach_history: Seq<Reply>,
    delivery_tables: Seq<AttachmentRows>,
    delivery_history: Seq<Reply>,
)
    requires
        rows::ran(
            delivering(database_url, session_id, request_id),
            on_attachments(),
            tables,
            history,
        ),
        attachments::delivery_step(database_url, session_id, request_id, history) == Step::<
            RequestAttachment,
            RequestAttachmentError,
        >::Finish(Ok(ended)),
        rows::ran(
            detaching(database_url, session_id, request_id),
            on_attachments(),
            detach_tables,
            detach_history,
        ),
        detach_tables[0] == tables.last(),
        rows::ran(
            delivering(database_url, session_id, request_id),
            on_attachments(),
            delivery_tables,
            delivery_history,
        ),
        delivery_tables[0] == tables.last(),
    ensures
        attachments::detach_step(database_url, session_id, request_id, detach_history)
            == attachments::failed::<RequestAttachment>(RequestAttachmentFailure::InvalidState),
        detach_tables.last() == tables.last(),
        attachments::delivery_step(database_url, session_id, request_id, delivery_history)
            == attachments::failed::<RequestAttachment>(RequestAttachmentFailure::InvalidState),
        delivery_tables.last() == tables.last(),
{
    let operation = delivering(database_url, session_id, request_id);
    names_differ();
    next_is_done(operation, on_attachments(), tables, history, 0);
    next_is_done(operation, on_attachments(), tables, history, 1);
    next_is_done(operation, on_attachments(), tables, history, 2);
    end_is_reached(operation, on_attachments(), tables, history, 3);
    let detachment = detaching(database_url, session_id, request_id);
    next_is_done(detachment, on_attachments(), detach_tables, detach_history, 0);
    next_is_done(detachment, on_attachments(), detach_tables, detach_history, 1);
    next_is_done(detachment, on_attachments(), detach_tables, detach_history, 2);
    end_is_reached(detachment, on_attachments(), detach_tables, detach_history, 3);
    let delivery = delivering(database_url, session_id, request_id);
    next_is_done(delivery, on_attachments(), delivery_tables, delivery_history, 0);
    next_is_done(delivery, on_attachments(), delivery_tables, delivery_history, 1);
    next_is_done(delivery, on_attachments(), delivery_tables, delivery_history, 2);
    end_is_reached(delivery, on_attachments(), delivery_tables, delivery_history, 3);
}

/// What was never attached is missing, whether it is to be detached or delivered.
pub proof fn unattached_request_is_missing(
    database_url: Seq<char>,
    session_id: String,
    request_id: String,
    detach_tables: Seq<AttachmentRows>,
    detach_history: Seq<Reply>,
    delivery_tables: Seq<AttachmentRows>,
    delivery_history: Seq<Reply>,
)
    requires
        attachments::inputs_valid(database_url, session_id@, request_id@),
        rows::ran(
            detaching(database_url, session_id, request_id),
            on_attachments(),
            detach_tables,
            detach_history,
        ),
        !detach_tables[0].contains_key((session_id@, request_id@)),
        rows::ran(
            delivering(database_url, session_id, request_id),
            on_attachments(),
            delivery_tables,
            delivery_history,
        ),
        !delivery_tables[0].contains_key((session_id@, request_id@)),
    ensures
        attachments::detach_step(database_url, session_id, request_id, detach_history)
            == attachments::failed::<RequestAttachment>(RequestAttachmentFailure::Missing),
        detach_tables.last() == detach_tables[0],
        attachments::delivery_step(database_url, session_id, request_id, delivery_history)
            == attachments::failed::<RequestAttachment>(RequestAttachmentFailure::Missing),
        delivery_tables.last() == delivery_tables[0],
{
    let detachment = detaching(database_url, session_id, request_id);
    next_is_done(detachment, on_attachments(), detach_tables, detach_history, 0);
    next_is_done(detachment, on_attachments(), detach_tables, detach_history, 1);
    next_is_done(detachment, on_attachments(), detach_tables, detach_history, 2);
    end_is_reached(detachment, on_attachments(), detach_tables, detach_history, 3);
    let delivery = delivering(database_url, session_id, request_id);
    next_is_done(delivery, on_attachments(), delivery_tables, delivery_history, 0);
    next_is_done(delivery, on_attachments(), delivery_tables, delivery_history, 1);
    next_is_done(delivery, on_attachments(), delivery_tables, delivery_history, 2);
    end_is_reached(delivery, on_attachments(), delivery_tables, delivery_history, 3);
}

} // verus!
