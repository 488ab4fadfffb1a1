//! Sessions, and the requests that are made in them, on their rows: what was recorded is found
//! again, and a name is used once.

use crate::crypto;
use crate::persistence::attachments::{
    self, RequestAttachment, RequestAttachmentError, RequestAttachmentFailure,
    RequestAttachmentState,
};
use crate::persistence::build_requests::{
    self, BuildRequestError, BuildRequestFailure, BuildRequestState,
};
use crate::persistence::database::{
    self, AttachmentRow, BuildRequestRow, DatabaseFault, LeaseRow, OutcomeRow, QueuedRequestRow,
    Reply, SessionRow, Statement, Step,
};
use crate::persistence::outcomes::{
    self, ExecutionOutcome, ExecutionOutcomeError, ExecutionOutcomeFailure,
};
use crate::persistence::queue::{self, BuildQueueState, QueuedBuildRequest};
use crate::persistence::rows::{self, end_is_reached, next_is_done};
use crate::persistence::sessions::{
    self, AuthenticationAuthority, ProtocolSession, ProtocolSessionError, ProtocolSessionFailure,
    ProtocolSessionState,
};
use crate::service::ipc::MAX_IPC_CREDENTIAL_ID_BYTES;
use crate::text;
use vstd::prelude::*;

verus! {

/// Sessions, requests, their places in the queue and their leases under their names, attachments
/// under those of session and request, and outcomes under those of attempts.
pub struct RequestRows {
    pub sessions: Map<Seq<char>, SessionRow>,
    pub requests: Map<Seq<char>, BuildRequestRow>,
    pub places: Map<Seq<char>, QueuedRequestRow>,
    pub leases: Map<Seq<char>, LeaseRow>,
    pub attachments: Map<(Seq<char>, Seq<char>), AttachmentRow>,
    pub outcomes: Map<Seq<char>, OutcomeRow>,
}

/// A request has an active lease for a purpose.
pub open spec fn has_lease(table: RequestRows, request_id: Seq<char>, purpose: Seq<char>) -> bool {
    exists|id: Seq<char>| #[trigger]
        table.leases.contains_key(id) && table.leases[id].owner_kind@ == "request"@
            && table.leases[id].owner_id@ == request_id && table.leases[id].purpose@ == purpose
            && table.leases[id].state@ == "active"@
}

/// How many of two things hold.
pub open spec fn count_of(one: bool, other: bool) -> int {
    if one && other {
        2
    } else if one || other {
        1
    } else {
        0
    }
}

/// An attachment is another one after it ended.
pub open spec fn is_ended(row: AttachmentRow, before: AttachmentRow, state: Seq<char>) -> bool {
    &&& row == (AttachmentRow {
        state: row.state,
        detached_at: row.detached_at,
        delivered_at: row.delivered_at,
        ..before
    })
    &&& row.state@ == state
    &&& if state == "detached"@ {
        row.detached_at is Some && row.detached_at->0 >= before.attached_at && row.delivered_at
            == before.delivered_at
    } else {
        row.delivered_at is Some && row.delivered_at->0 >= before.attached_at && row.detached_at
            == before.detached_at
    }
}

/// Rows are the requests that are queued, the first queued first and at most so many.
pub open spec fn are_queued(
    listed: Seq<QueuedRequestRow>,
    table: RequestRows,
    maximum_rows: int,
) -> bool {
    &&& listed.len() <= maximum_rows
    &&& forall|i: int|
        0 <= i < listed.len() ==> table.places.contains_key((#[trigger] listed[i]).request_id@)
            && table.places[listed[i].request_id@] == listed[i] && listed[i].queue_state@
            == "queued"@
    &&& forall|i: int, j: int|
        0 <= i < j < listed.len() ==> (#[trigger] listed[i]).queued_at->0 <= (
        #[trigger] listed[j]).queued_at->0 && listed[i].request_id@ != listed[j].request_id@
    &&& forall|id: Seq<char>| #[trigger]
        table.places.contains_key(id) && table.places[id].queue_state@ == "queued"@
            ==> listed.len() == maximum_rows || is_among(listed, id)
}

/// A request is among rows.
pub open spec fn is_among(listed: Seq<QueuedRequestRow>, id: Seq<char>) -> bool {
    exists|i: int| 0 <= i < listed.len() && (#[trigger] listed[i]).request_id@ == id
}

/// What statements do to sessions and requests.
pub open spec fn requests_change(
    before: RequestRows,
    statement: Statement,
    reply: Reply,
    after: RequestRows,
) -> bool {
    match statement {
        Statement::Begin | Statement::Commit => reply is Done && after == before,
        Statement::OpenSession {
            session_id,
            requester_reference,
            credential_id,
            authentication_authority,
            audit_subject,
            quota_subject,
        } => if before.sessions.contains_key(session_id@) {
            reply == Reply::Failed(DatabaseFault::UniqueViolation) && after == before
        } else {
            match reply {
                Reply::Session(Some(row)) => {
                    &&& row.session_id@ == session_id@
                    &&& row.requester_reference@ == requester_reference@
                    &&& row.credential_id is Some
                    &&& row.credential_id->0@ == credential_id@
                    &&& row.authentication_authority is Some
                    &&& row.authentication_authority->0@ == authentication_authority@
                    &&& row.audit_subject@ == audit_subject@
                    &&& row.quota_subject@ == quota_subject@
                    &&& row.state@ == "open"@
                    &&& row.closed_at is None
                    &&& after == (RequestRows {
                        sessions: before.sessions.insert(session_id@, row),
                        ..before
                    })
                },
                _ => false,
            }
        },
        Statement::CloseOpenSession { session_id } => if before.sessions.contains_key(session_id@)
            && before.sessions[session_id@].state@ == "open"@ {
            match reply {
                Reply::Session(Some(row)) => {
                    &&& row == (SessionRow {
                        state: row.state,
                        closed_at: row.closed_at,
                        ..before.sessions[session_id@]
                    })
                    &&& row.state@ == "closed"@
                    &&& row.closed_at is Some
                    &&& row.closed_at->0 >= row.created_at
                    &&& after == (RequestRows {
                        sessions: before.sessions.insert(session_id@, row),
                        ..before
                    })
                },
                _ => false,
            }
        } else {
            reply == Reply::Session(None) && after == before
        },
        Statement::ReadSessionState { session_id } => after == before && match reply {
            Reply::Text(None) => !before.sessions.contains_key(session_id@),
            Reply::Text(Some(Some(state))) => before.sessions.contains_key(session_id@) && state@
                == before.sessions[session_id@].state@,
            _ => false,
        },
        Statement::ReadSession { session_id } | Statement::HoldSession { session_id } => after
            == before && if before.sessions.contains_key(session_id@) {
            reply == Reply::Session(Some(before.sessions[session_id@]))
        } else {
            reply == Reply::Session(None)
        },
        Statement::CreateBuildRequest {
            request_id,
            derivation_path,
            system,
            audit_subject,
            quota_subject,
        } => if before.requests.contains_key(request_id@) {
            reply == Reply::Failed(DatabaseFault::UniqueViolation) && after == before
        } else {
            match reply {
                Reply::BuildRequest(Some(row)) => {
                    &&& row.request_id@ == request_id@
                    &&& row.derivation_path@ == derivation_path@
                    &&& row.system@ == system@
                    &&& row.audit_subject@ == audit_subject@
                    &&& row.quota_subject@ == quota_subject@
                    &&& after == (RequestRows {
                        requests: before.requests.insert(request_id@, row),
                        ..before
                    })
                },
                _ => false,
            }
        },
        Statement::ReadBuildRequest { request_id } => after == before
            && if before.requests.contains_key(request_id@) {
            reply == Reply::BuildRequest(Some(before.requests[request_id@]))
        } else {
            reply == Reply::BuildRequest(None)
        },
        Statement::Attach { session_id, request_id } => {
            let place = (session_id@, request_id@);
            if before.attachments.contains_key(place) {
                reply == Reply::Failed(DatabaseFault::UniqueViolation) && after == before
            } else {
                match reply {
                    Reply::Attachment(Some(row)) => {
                        &&& row.session_id@ == session_id@
                        &&& row.request_id@ == request_id@
                        &&& row.state@ == "attached"@
                        &&& row.detached_at is None
                        &&& row.delivered_at is None
                        &&& after == (RequestRows {
                            attachments: before.attachments.insert(place, row),
                            ..before
                        })
                    },
                    _ => false,
                }
            }
        },
        Statement::DetachAttached { session_id, request_id } => ends_attached(
            before,
            (session_id@, request_id@),
            "detached"@,
            reply,
            after,
        ),
        Statement::DeliverAttached { session_id, request_id } => ends_attached(
            before,
            (session_id@, request_id@),
            "delivered"@,
            reply,
            after,
        ),
        Statement::ReadAttachmentState { session_id, request_id } => {
            let place = (session_id@, request_id@);
            &&& after == before
            &&& match reply {
                Reply::Text(None) => !before.attachments.contains_key(place),
                Reply::Text(Some(Some(state))) => before.attachments.contains_key(place) && state@
                    == before.attachments[place].state@,
                _ => false,
            }
        },
        Statement::ReadAttachment { session_id, request_id } => after == before
            && if before.attachments.contains_key((session_id@, request_id@)) {
            reply == Reply::Attachment(Some(before.attachments[(session_id@, request_id@)]))
        } else {
            reply == Reply::Attachment(None)
        },
        Statement::LockQueuedRequest { request_id } => after == before
            && if before.places.contains_key(request_id@) {
            reply == Reply::QueuedRequest(Some(before.places[request_id@]))
        } else {
            reply == Reply::QueuedRequest(None)
        },
        Statement::CountRequiredLeases { request_id } => after == before && match reply {
            Reply::Count(purposes) => purposes == count_of(
                has_lease(before, request_id@, "derivation"@),
                has_lease(before, request_id@, "input"@),
            ),
            _ => false,
        },
        Statement::QueueAcceptedRequest { request_id } => if before.places.contains_key(request_id@)
            && before.places[request_id@].queue_state@ == "accepted"@ {
            match reply {
                Reply::QueuedRequest(Some(row)) => {
                    &&& row == (QueuedRequestRow {
                        queue_state: row.queue_state,
                        queued_at: row.queued_at,
                        ..before.places[request_id@]
                    })
                    &&& row.queue_state@ == "queued"@
                    &&& row.queued_at is Some
                    &&& after == (RequestRows {
                        places: before.places.insert(request_id@, row),
                        ..before
                    })
                },
                _ => false,
            }
        } else {
            reply == Reply::QueuedRequest(None) && after == before
        },
        Statement::ReadQueuedRequests { maximum_rows } => after == before && match reply {
            Reply::QueuedRequests(listed) => are_queued(listed@, before, maximum_rows as int),
            _ => false,
        },
        Statement::InsertPlainOutcome { attempt_id, classification } => {
            if before.outcomes.contains_key(attempt_id@) {
                reply == Reply::Failed(DatabaseFault::UniqueViolation) && after == before
            } else {
                match reply {
                    Reply::Outcome(Some(row)) => {
                        &&& row.attempt_id@ == attempt_id@
                        &&& row.classification@ == classification@
                        &&& crypto::json_is_object(row.result_metadata@) == Some(true)
                        &&& after == (RequestRows {
                            outcomes: before.outcomes.insert(attempt_id@, row),
                            ..before
                        })
                    },
                    _ => false,
                }
            }
        },
        Statement::ReadOutcome { attempt_id } => after == before
            && if before.outcomes.contains_key(attempt_id@) {
            reply == Reply::Outcome(Some(before.outcomes[attempt_id@]))
        } else {
            reply == Reply::Outcome(None)
        },
        _ => true,
    }
}

/// An attachment ends where it is attached.
pub open spec fn ends_attached(
    before: RequestRows,
    place: (Seq<char>, Seq<char>),
    state: Seq<char>,
    reply: Reply,
    after: RequestRows,
) -> bool {
    if before.attachments.contains_key(place) && before.attachments[place].state@ == "attached"@ {
        match reply {
            Reply::Attachment(Some(row)) => is_ended(row, before.attachments[place], state) && after
                == (RequestRows { attachments: before.attachments.insert(place, row), ..before }),
            _ => false,
        }
    } else {
        reply == Reply::Attachment(None) && after == before
    }
}

/// The model of sessions and requests.
pub open spec fn on_requests() -> spec_fn(RequestRows, Statement, Reply, RequestRows) -> bool {
    |before: RequestRows, statement: Statement, reply: Reply, after: RequestRows|
        requests_change(before, statement, reply, after)
}

proof fn names_differ()
    ensures
        "open"@.len() == 4,
        "closed"@.len() == 6,
        "attached"@.len() == 8 && "attached"@[0] == 'a',
        "detached"@.len() == 8 && "detached"@[0] == 'd',
        "delivered"@.len() == 9,
{
    reveal_strlit("open");
    reveal_strlit("closed");
    reveal_strlit("attached");
    reveal_strlit("detached");
    reveal_strlit("delivered");
}

/// A session as it is recorded.
pub open spec fn is_session(session: ProtocolSession, row: SessionRow) -> bool {
    &&& session.session_id@ == row.session_id@
    &&& session.requester_reference@ == row.requester_reference@
    &&& match (session.credential_id, row.credential_id) {
        (Some(credential), Some(recorded)) => credential@ == recorded@,
        (None, None) => true,
        _ => false,
    }
    &&& match (session.authentication_authority, row.authentication_authority) {
        (Some(authority), Some(recorded)) => recorded@ == match authority {
            AuthenticationAuthority::OpenSshPublicKey => "openssh-public-key"@,
            AuthenticationAuthority::OpenSshCertificate => "openssh-certificate"@,
        },
        (None, None) => true,
        _ => false,
    }
    &&& session.audit_subject@ == row.audit_subject@
    &&& session.quota_subject@ == row.quota_subject@
    &&& row.state@ == (if session.state is Open {
        "open"@
    } else {
        "closed"@
    })
    &&& session.created_at == row.created_at
    &&& session.closed_at == row.closed_at
}

/// The opening of a session.
pub open spec fn opening(
    database_url: Seq<char>,
    session_id: String,
    requester_reference: String,
    credential_id: String,
    audit_subject: String,
    quota_subject: String,
) -> spec_fn(Seq<Reply>) -> Step<ProtocolSession, ProtocolSessionError> {
    |history: Seq<Reply>|
        sessions::open_step(
            database_url,
            session_id,
            requester_reference,
            credential_id,
            audit_subject,
            quota_subject,
            history,
        )
}

/// A session is opened under a name that is free, for the requester and the credential that it was
/// opened with: the credential of a public key is vouched for as such, and that of a certificate. A
/// name that is taken is a conflict, and nothing changes.
pub proof fn session_is_opened(
    database_url: Seq<char>,
    session_id: String,
    requester_reference: String,
    credential_id: String,
    audit_subject: String,
    quota_subject: String,
    tables: Seq<RequestRows>,
    history: Seq<Reply>,
)
    requires
        !text::is_blank(database_url),
        database::is_component(session_id@),
        sessions::is_requester_reference(requester_reference@),
        sessions::extends(credential_id@, "ssh-pubkey:"@) || sessions::extends(
            credential_id@,
            "ssh-cert:"@,
        ),
        text::byte_length(credential_id@) <= MAX_IPC_CREDENTIAL_ID_BYTES,
        database::is_component(audit_subject@),
        database::is_bounded(quota_subject@, MAX_IPC_CREDENTIAL_ID_BYTES as nat),
        rows::ran(
            opening(
                database_url,
                session_id,
                requester_reference,
                credential_id,
                audit_subject,
                quota_subject,
            ),
            on_requests(),
            tables,
            history,
        ),
    ensures
        ({
            let step = sessions::open_step(
                database_url,
                session_id,
                requester_reference,
                credential_id,
                audit_subject,
                quota_subject,
                history,
            );
            let row = tables.last().sessions[session_id@];
            if tables[0].sessions.contains_key(session_id@) {
                step == sessions::failed::<ProtocolSession>(ProtocolSessionFailure::Conflict)
                    && tables.last() == tables[0]
            } else {
                &&& tables.last() == (RequestRows {
                    sessions: tables[0].sessions.insert(session_id@, row),
                    ..tables[0]
                })
                &&& step matches Step::Finish(Ok(session)) && {
                    &&& is_session(session, row)
                    &&& session.session_id@ == session_id@
                    &&& session.requester_reference@ == requester_reference@
                    &&& session.credential_id is Some
                    &&& session.credential_id->0@ == credential_id@
                    &&& session.authentication_authority is Some
                    &&& session.authentication_authority->0 is OpenSshPublicKey
                        <==> sessions::extends(credential_id@, "ssh-pubkey:"@)
                    &&& session.audit_subject@ == audit_subject@
                    &&& session.quota_subject@ == quota_subject@
                    &&& session.state == ProtocolSessionState::Open
                    &&& session.closed_at is None
                }
            }
        }),
{
    let operation = opening(
        database_url,
        session_id,
        requester_reference,
        credential_id,
        audit_subject,
        quota_subject,
    );
    names_differ();
    next_is_done(operation, on_requests(), tables, history, 0);
    next_is_done(operation, on_requests(), tables, history, 1);
    if tables[0].sessions.contains_key(session_id@) {
        end_is_reached(operation, on_requests(), tables, history, 2);
    } else {
        next_is_done(operation, on_requests(), tables, history, 2);
        end_is_reached(operation, on_requests(), tables, history, 3);
    }
}

/// The closing of a session.
pub open spec fn closing(database_url: Seq<char>, session_id: String) -> spec_fn(
    Seq<Reply>,
) -> Step<ProtocolSession, ProtocolSessionError> {
    |history: Seq<Reply>| sessions::close_step(database_url, session_id, history)
}

/// A session that is open is closed, and is what was returned. One that is not there is not found,
/// one that was closed before cannot be again, and then nothing changes.
pub proof fn open_session_is_closed(
    database_url: Seq<char>,
    session_id: String,
    tables: Seq<RequestRows>,
    history: Seq<Reply>,
)
    requires
        !text::is_blank(database_url),
        database::is_component(session_id@),
        tables[0].sessions.contains_key(session_id@) ==> sessions::session_of(
            tables[0].sessions[session_id@],
        ) is Some,
        rows::ran(closing(database_url, session_id), on_requests(), tables, history),
    ensures
        ({
            let step = sessions::close_step(database_url, session_id, history);
            let before = tables[0].sessions[session_id@];
            let row = tables.last().sessions[session_id@];
            if !tables[0].sessions.contains_key(session_id@) {
                step == sessions::failed::<ProtocolSession>(ProtocolSessionFailure::NotFound)
                    && tables.last() == tables[0]
            } else if before.state@ == "closed"@ {
                step == sessions::failed::<ProtocolSession>(
                    ProtocolSessionFailure::InvalidTransition,
                ) && tables.last() == tables[0]
            } else {
                &&& row == (SessionRow { state: row.state, closed_at: row.closed_at, ..before })
                &&& row.state@ == "closed"@
                &&& row.closed_at is Some
                &&& tables.last() == (RequestRows {
                    sessions: tables[0].sessions.insert(session_id@, row),
                    ..tables[0]
                })
                &&& step matches Step::Finish(Ok(session)) && is_session(session, row)
            }
        }),
{
    let operation = closing(database_url, session_id);
    names_differ();
    next_is_done(operation, on_requests(), tables, history, 0);
    next_is_done(operation, on_requests(), tables, history, 1);
    next_is_done(operation, on_requests(), tables, history, 2);
    end_is_reached(operation, on_requests(), tables, history, 3);
}

/// The reading of a session.
pub open spec fn reading_session(database_url: Seq<char>, session_id: String) -> spec_fn(
    Seq<Reply>,
) -> Step<Option<ProtocolSession>, ProtocolSessionError> {
    |history: Seq<Reply>| sessions::read_step(database_url, session_id, history)
}

/// A session is read as it is recorded, and nothing where there is none.
pub proof fn recorded_session_is_read(
    database_url: Seq<char>,
    session_id: String,
    tables: Seq<RequestRows>,
    history: Seq<Reply>,
)
    requires
        !text::is_blank(database_url),
        database::is_component(session_id@),
        tables[0].sessions.contains_key(session_id@) ==> sessions::session_of(
            tables[0].sessions[session_id@],
        ) is Some,
        rows::ran(reading_session(database_url, session_id), on_requests(), tables, history),
    ensures
        sessions::read_step(database_url, session_id, history) matches Step::Finish(Ok(read))
            && if tables[0].sessions.contains_key(session_id@) {
            read matches Some(session) && is_session(session, tables[0].sessions[session_id@])
        } else {
            read is None
        },
        tables.last() == tables[0],
{
    let operation = reading_session(database_url, session_id);
    next_is_done(operation, on_requests(), tables, history, 0);
    next_is_done(operation, on_requests(), tables, history, 1);
    end_is_reached(operation, on_requests(), tables, history, 2);
}

/// A request as it is recorded.
pub open spec fn is_request(request: BuildRequestState, row: BuildRequestRow) -> bool {
    &&& request.request_id@ == row.request_id@
    &&& request.derivation_path@ == row.derivation_path@
    &&& request.system@ == row.system@
    &&& request.audit_subject@ == row.audit_subject@
    &&& request.quota_subject@ == row.quota_subject@
    &&& request.created_at == row.created_at
}

/// The making of a request.
pub open spec fn requesting(
    database_url: Seq<char>,
    request_id: String,
    derivation_path: String,
    system: String,
    audit_subject: String,
    quota_subject: String,
    maximum_path_bytes: nat,
) -> spec_fn(Seq<Reply>) -> Step<BuildRequestState, BuildRequestError> {
    |history: Seq<Reply>|
        build_requests::create_step(
            database_url,
            request_id,
            derivation_path,
            system,
            audit_subject,
            quota_subject,
            maximum_path_bytes,
            history,
        )
}

/// A request is made under a name that is free, as it was asked for. A name that is taken is a
/// conflict, and nothing changes.
pub proof fn request_is_made(
    database_url: Seq<char>,
    request_id: String,
    derivation_path: String,
    system: String,
    audit_subject: String,
    quota_subject: String,
    maximum_path_bytes: nat,
    tables: Seq<RequestRows>,
    history: Seq<Reply>,
)
    requires
        !text::is_blank(database_url),
        database::is_component(request_id@),
        database::is_bounded(derivation_path@, maximum_path_bytes),
        database::is_component(system@),
        database::is_component(audit_subject@),
        database::is_bounded(quota_subject@, MAX_IPC_CREDENTIAL_ID_BYTES as nat),
        rows::ran(
            requesting(
                database_url,
                request_id,
                derivation_path,
                system,
                audit_subject,
                quota_subject,
                maximum_path_bytes,
            ),
            on_requests(),
            tables,
            history,
        ),
    ensures
        ({
            let step = build_requests::create_step(
                database_url,
                request_id,
                derivation_path,
                system,
                audit_subject,
                quota_subject,
                maximum_path_bytes,
                history,
            );
            let row = tables.last().requests[request_id@];
            if tables[0].requests.contains_key(request_id@) {
                step == build_requests::failed::<BuildRequestState>(BuildRequestFailure::Conflict)
                    && tables.last() == tables[0]
            } else {
                &&& tables.last() == (RequestRows {
                    requests: tables[0].requests.insert(request_id@, row),
                    ..tables[0]
                })
                &&& step matches Step::Finish(Ok(request)) && {
                    &&& is_request(request, row)
                    &&& request.request_id@ == request_id@
                    &&& request.derivation_path@ == derivation_path@
                    &&& request.system@ == system@
                    &&& request.audit_subject@ == audit_subject@
                    &&& request.quota_subject@ == quota_subject@
                }
            }
        }),
{
    let operation = requesting(
        database_url,
        request_id,
        derivation_path,
        system,
        audit_subject,
        quota_subject,
        maximum_path_bytes,
    );
    next_is_done(operation, on_requests(), tables, history, 0);
    next_is_done(operation, on_requests(), tables, history, 1);
    if tables[0].requests.contains_key(request_id@) {
        end_is_reached(operation, on_requests(), tables, history, 2);
    } else {
        next_is_done(operation, on_requests(), tables, history, 2);
        end_is_reached(operation, on_requests(), tables, history, 3);
    }
}

/// The reading of a request.
pub open spec fn reading_request(
    database_url: Seq<char>,
    request_id: String,
    maximum_path_bytes: nat,
) -> spec_fn(Seq<Reply>) -> Step<Option<BuildRequestState>, BuildRequestError> {
    |history: Seq<Reply>|
        build_requests::read_step(database_url, request_id, maximum_path_bytes, history)
}

/// A request is read as it is recorded, and nothing where there is none.
pub proof fn recorded_request_is_read(
    database_url: Seq<char>,
    request_id: String,
    maximum_path_bytes: nat,
    tables: Seq<RequestRows>,
    history: Seq<Reply>,
)
    requires
        !text::is_blank(database_url),
        database::is_component(request_id@),
        tables[0].requests.contains_key(request_id@) ==> build_requests::request_of(
            tables[0].requests[request_id@],
            maximum_path_bytes,
        ) is Some,
        rows::ran(
            reading_request(database_url, request_id, maximum_path_bytes),
            on_requests(),
            tables,
            history,
        ),
    ensures
        build_requests::read_step(
            database_url,
            request_id,
            maximum_path_bytes,
            history,
        ) matches Step::Finish(Ok(read)) && if tables[0].requests.contains_key(request_id@) {
            read matches Some(request) && is_request(request, tables[0].requests[request_id@])
        } else {
            read is None
        },
        tables.last() == tables[0],
{
    let operation = reading_request(database_url, request_id, maximum_path_bytes);
    next_is_done(operation, on_requests(), tables, history, 0);
    next_is_done(operation, on_requests(), tables, history, 1);
    end_is_reached(operation, on_requests(), tables, history, 2);
}

/// An attachment as it is recorded.
pub open spec fn is_attachment(attachment: RequestAttachment, row: AttachmentRow) -> bool {
    &&& attachment.session_id@ == row.session_id@
    &&& attachment.request_id@ == row.request_id@
    &&& row.state@ == match attachment.state {
        RequestAttachmentState::Attached => "attached"@,
        RequestAttachmentState::Detached => "detached"@,
        RequestAttachmentState::Delivered => "delivered"@,
    }
    &&& attachment.attached_at == row.attached_at
    &&& attachment.detached_at == row.detached_at
    &&& attachment.delivered_at == row.delivered_at
}

/// The attachment of a request to a session.
pub open spec fn attaching(
    database_url: Seq<char>,
    session_id: String,
    request_id: String,
    maximum_path_bytes: nat,
) -> spec_fn(Seq<Reply>) -> Step<RequestAttachment, RequestAttachmentError> {
    |history: Seq<Reply>|
        attachments::attach_step(
            database_url,
            session_id,
            request_id,
            maximum_path_bytes,
            history,
        )
}

/// A request is attached to a session that is open, once. Where the session or the request is not
/// there, the session is closed, or the two were attached before, nothing changes.
pub proof fn request_is_attached(
    database_url: Seq<char>,
    session_id: String,
    request_id: String,
    maximum_path_bytes: nat,
    tables: Seq<RequestRows>,
    history: Seq<Reply>,
)
    requires
        !text::is_blank(database_url),
        database::is_component(session_id@),
        database::is_component(request_id@),
        tables[0].sessions.contains_key(session_id@) ==> sessions::session_of(
            tables[0].sessions[session_id@],
        ) is Some,
        tables[0].requests.contains_key(request_id@) ==> build_requests::request_of(
            tables[0].requests[request_id@],
            maximum_path_bytes,
        ) is Some,
        rows::ran(
            attaching(database_url, session_id, request_id, maximum_path_bytes),
            on_requests(),
            tables,
            history,
        ),
    ensures
        ({
            let step = attachments::attach_step(
                database_url,
                session_id,
                request_id,
                maximum_path_bytes,
                history,
            );
            let place = (session_id@, request_id@);
            let before = tables[0];
            let row = tables.last().attachments[place];
            if !before.sessions.contains_key(session_id@) {
                step == attachments::failed::<RequestAttachment>(RequestAttachmentFailure::Missing)
                    && tables.last() == before
            } else if before.sessions[session_id@].state@ != "open"@ {
                step == attachments::failed::<RequestAttachment>(
                    RequestAttachmentFailure::InvalidState,
                ) && tables.last() == before
            } else if !before.requests.contains_key(request_id@) {
                step == attachments::failed::<RequestAttachment>(RequestAttachmentFailure::Missing)
                    && tables.last() == before
            } else if before.attachments.contains_key(place) {
                step == attachments::failed::<RequestAttachment>(RequestAttachmentFailure::Conflict)
                    && tables.last() == before
            } else {
                &&& tables.last() == (RequestRows {
                    attachments: before.attachments.insert(place, row),
                    ..before
                })
                &&& step matches Step::Finish(Ok(attachment)) && {
                    &&& is_attachment(attachment, row)
                    &&& attachment.session_id@ == session_id@
                    &&& attachment.request_id@ == request_id@
                    &&& attachment.state == RequestAttachmentState::Attached
                }
            }
        }),
{
    let operation = attaching(database_url, session_id, request_id, maximum_path_bytes);
    let before = tables[0];
    names_differ();
    next_is_done(operation, on_requests(), tables, history, 0);
    next_is_done(operation, on_requests(), tables, history, 1);
    if !before.sessions.contains_key(session_id@) || before.sessions[session_id@].state@
        != "open"@ {
        end_is_reached(operation, on_requests(), tables, history, 2);
    } else {
        next_is_done(operation, on_requests(), tables, history, 2);
        if !before.requests.contains_key(request_id@) {
            end_is_reached(operation, on_requests(), tables, history, 3);
        } else {
            next_is_done(operation, on_requests(), tables, history, 3);
            if before.attachments.contains_key((session_id@, request_id@)) {
                end_is_reached(operation, on_requests(), tables, history, 4);
            } else {
                next_is_done(operation, on_requests(), tables, history, 4);
                end_is_reached(operation, on_requests(), tables, history, 5);
            }
        }
    }
}

/// The reading of an attachment.
pub open spec fn reading_attachment(
    database_url: Seq<char>,
    session_id: String,
    request_id: String,
) -> spec_fn(Seq<Reply>) -> Step<Option<RequestAttachment>, RequestAttachmentError> {
    |history: Seq<Reply>| attachments::read_step(database_url, session_id, request_id, history)
}

/// An attachment is read as it is recorded, and nothing where there is none.
pub proof fn recorded_attachment_is_read(
    database_url: Seq<char>,
    session_id: String,
    request_id: String,
    tables: Seq<RequestRows>,
    history: Seq<Reply>,
)
    requires
        !text::is_blank(database_url),
        database::is_component(session_id@),
        database::is_component(request_id@),
        tables[0].attachments.contains_key((session_id@, request_id@)) ==> attachments::attachment_of(
            tables[0].attachments[(session_id@, request_id@)],
        ) is Some,
        rows::ran(
            reading_attachment(database_url, session_id, request_id),
            on_requests(),
            tables,
            history,
        ),
    ensures
        attachments::read_step(
            database_url,
            session_id,
            request_id,
            history,
        ) matches Step::Finish(Ok(read)) && if tables[0].attachments.contains_key(
            (session_id@, request_id@),
        ) {
            read matches Some(attachment) && is_attachment(
                attachment,
                tables[0].attachments[(session_id@, request_id@)],
            )
        } else {
            read is None
        },
        tables.last() == tables[0],
{
    let operation = reading_attachment(database_url, session_id, request_id);
    next_is_done(operation, on_requests(), tables, history, 0);
    next_is_done(operation, on_requests(), tables, history, 1);
    end_is_reached(operation, on_requests(), tables, history, 2);
}

/// The detachment of a request.
pub open spec fn detaching(
    database_url: Seq<char>,
    session_id: String,
    request_id: String,
) -> spec_fn(Seq<Reply>) -> Step<RequestAttachment, RequestAttachmentError> {
    |history: Seq<Reply>| attachments::detach_step(database_url, session_id, request_id, history)
}

/// The delivery of a request.
pub open spec fn delivering(
    database_url: Seq<char>,
    session_id: String,
    request_id: String,
) -> spec_fn(Seq<Reply>) -> Step<RequestAttachment, RequestAttachmentError> {
    |history: Seq<Reply>| attachments::delivery_step(database_url, session_id, request_id, history)
}

/// What comes of the end of an attachment: one that is attached ends and is what was returned; one
/// that is not there is missing, and one that ended before stays as it is.
pub open spec fn ends_once(
    before: RequestRows,
    after: RequestRows,
    place: (Seq<char>, Seq<char>),
    state: Seq<char>,
    step: Step<RequestAttachment, RequestAttachmentError>,
) -> bool {
    let row = after.attachments[place];
    if !before.attachments.contains_key(place) {
        step == attachments::failed::<RequestAttachment>(RequestAttachmentFailure::Missing) && after
            == before
    } else if before.attachments[place].state@ != "attached"@ {
        step == attachments::failed::<RequestAttachment>(RequestAttachmentFailure::InvalidState)
            && after == before
    } else {
        &&& is_ended(row, before.attachments[place], state)
        &&& after == (RequestRows {
            attachments: before.attachments.insert(place, row),
            ..before
        })
        &&& step matches Step::Finish(Ok(attachment)) && is_attachment(attachment, row)
    }
}

/// An attached request is detached, and only such a one.
pub proof fn attachment_is_detached(
    database_url: Seq<char>,
    session_id: String,
    request_id: String,
    tables: Seq<RequestRows>,
    history: Seq<Reply>,
)
    requires
        !text::is_blank(database_url),
        database::is_component(session_id@),
        database::is_component(request_id@),
        tables[0].attachments.contains_key((session_id@, request_id@)) ==> attachments::attachment_of(
            tables[0].attachments[(session_id@, request_id@)],
        ) is Some,
        rows::ran(
            detaching(database_url, session_id, request_id),
            on_requests(),
            tables,
            history,
        ),
    ensures
        ends_once(
            tables[0],
            tables.last(),
            (session_id@, request_id@),
            "detached"@,
            attachments::detach_step(database_url, session_id, request_id, history),
        ),
{
    let operation = detaching(database_url, session_id, request_id);
    names_differ();
    next_is_done(operation, on_requests(), tables, history, 0);
    next_is_done(operation, on_requests(), tables, history, 1);
    next_is_done(operation, on_requests(), tables, history, 2);
    end_is_reached(operation, on_requests(), tables, history, 3);
}

/// An attached request is delivered, and only such a one.
pub proof fn attachment_is_delivered(
    database_url: Seq<char>,
    session_id: String,
    request_id: String,
    tables: Seq<RequestRows>,
    history: Seq<Reply>,
)
    requires
        !text::is_blank(database_url),
        database::is_component(session_id@),
        database::is_component(request_id@),
        tables[0].attachments.contains_key((session_id@, request_id@)) ==> attachments::attachment_of(
            tables[0].attachments[(session_id@, request_id@)],
        ) is Some,
        rows::ran(
            delivering(database_url, session_id, request_id),
            on_requests(),
            tables,
            history,
        ),
    ensures
        ends_once(
            tables[0],
            tables.last(),
            (session_id@, request_id@),
            "delivered"@,
            attachments::delivery_step(database_url, session_id, request_id, history),
        ),
{
    let operation = delivering(database_url, session_id, request_id);
    names_differ();
    next_is_done(operation, on_requests(), tables, history, 0);
    next_is_done(operation, on_requests(), tables, history, 1);
    next_is_done(operation, on_requests(), tables, history, 2);
    end_is_reached(operation, on_requests(), tables, history, 3);
}

/// A request in the queue as it is recorded.
pub open spec fn is_place(request: QueuedBuildRequest, row: QueuedRequestRow) -> bool {
    &&& request.request_id@ == row.request_id@
    &&& request.derivation_path@ == row.derivation_path@
    &&& request.system@ == row.system@
    &&& row.queue_state@ == match request.queue_state {
        BuildQueueState::Accepted => "accepted"@,
        BuildQueueState::Queued => "queued"@,
        BuildQueueState::Dispatching => "dispatching"@,
        BuildQueueState::Reconciling => "reconciling"@,
        BuildQueueState::BackendPending => "backend-pending"@,
        BuildQueueState::Running => "running"@,
        BuildQueueState::Collecting => "collecting"@,
        BuildQueueState::Completed => "completed"@,
        BuildQueueState::Failed => "failed"@,
        BuildQueueState::Cancelled => "cancelled"@,
    }
    &&& request.queued_at == row.queued_at
    &&& request.audit_subject@ == row.audit_subject@
    &&& request.quota_subject@ == row.quota_subject@
    &&& request.created_at == row.created_at
}

/// The queueing of a request.
pub open spec fn queueing(
    database_url: Seq<char>,
    request_id: String,
    maximum_path_bytes: nat,
) -> spec_fn(Seq<Reply>) -> Step<QueuedBuildRequest, BuildRequestError> {
    |history: Seq<Reply>|
        queue::queue_step(database_url, request_id, maximum_path_bytes, history)
}

/// A request that was accepted is queued where its derivation and its inputs are held. Else it is
/// refused, and nothing changes.
pub proof fn accepted_request_is_queued(
    database_url: Seq<char>,
    request_id: String,
    maximum_path_bytes: nat,
    tables: Seq<RequestRows>,
    history: Seq<Reply>,
)
    requires
        !text::is_blank(database_url),
        database::is_component(request_id@),
        tables[0].places.contains_key(request_id@) ==> queue::queued_of(
            tables[0].places[request_id@],
            maximum_path_bytes,
        ) is Some,
        rows::ran(
            queueing(database_url, request_id, maximum_path_bytes),
            on_requests(),
            tables,
            history,
        ),
    ensures
        ({
            let step = queue::queue_step(database_url, request_id, maximum_path_bytes, history);
            let before = tables[0];
            let row = tables.last().places[request_id@];
            if before.places.contains_key(request_id@) && before.places[request_id@].queue_state@
                == "accepted"@ && has_lease(before, request_id@, "derivation"@) && has_lease(
                before,
                request_id@,
                "input"@,
            ) {
                &&& row == (QueuedRequestRow {
                    queue_state: row.queue_state,
                    queued_at: row.queued_at,
                    ..before.places[request_id@]
                })
                &&& row.queue_state@ == "queued"@
                &&& row.queued_at is Some
                &&& tables.last() == (RequestRows {
                    places: before.places.insert(request_id@, row),
                    ..before
                })
                &&& step matches Step::Finish(Ok(request)) && is_place(request, row)
                    && request.queue_state == BuildQueueState::Queued
            } else {
                step == queue::failed::<QueuedBuildRequest>(BuildRequestFailure::InvalidState)
                    && tables.last() == before
            }
        }),
{
    let operation = queueing(database_url, request_id, maximum_path_bytes);
    let before = tables[0];
    next_is_done(operation, on_requests(), tables, history, 0);
    next_is_done(operation, on_requests(), tables, history, 1);
    places_are_told_apart();
    if !before.places.contains_key(request_id@) || before.places[request_id@].queue_state@
        != "accepted"@ {
        end_is_reached(operation, on_requests(), tables, history, 2);
    } else {
        next_is_done(operation, on_requests(), tables, history, 2);
        if has_lease(before, request_id@, "derivation"@) && has_lease(
            before,
            request_id@,
            "input"@,
        ) {
            next_is_done(operation, on_requests(), tables, history, 3);
            next_is_done(operation, on_requests(), tables, history, 4);
            end_is_reached(operation, on_requests(), tables, history, 5);
        } else {
            end_is_reached(operation, on_requests(), tables, history, 3);
        }
    }
}

proof fn places_are_told_apart()
    ensures
        "accepted"@.len() == 8,
        "queued"@.len() == 6 && "queued"@[0] == 'q',
        "dispatching"@.len() == 11,
        "reconciling"@.len() == 11,
        "backend-pending"@.len() == 15,
        "running"@.len() == 7,
        "collecting"@.len() == 10,
        "completed"@.len() == 9,
        "failed"@.len() == 6 && "failed"@[0] == 'f',
        "cancelled"@.len() == 9,
{
    reveal_strlit("accepted");
    reveal_strlit("queued");
    reveal_strlit("dispatching");
    reveal_strlit("reconciling");
    reveal_strlit("backend-pending");
    reveal_strlit("running");
    reveal_strlit("collecting");
    reveal_strlit("completed");
    reveal_strlit("failed");
    reveal_strlit("cancelled");
}

/// The reading of queued requests.
pub open spec fn recovering_queued(
    database_url: Seq<char>,
    limit: usize,
    maximum_path_bytes: nat,
) -> spec_fn(Seq<Reply>) -> Step<Seq<QueuedBuildRequest>, BuildRequestError> {
    |history: Seq<Reply>|
        queue::recover_step(database_url, limit, maximum_path_bytes, history)
}

/// Requests that are queued are found again as they are recorded, each once and the first queued
/// first. One is left out only where there are more than were asked for.
pub proof fn queued_requests_are_found(
    database_url: Seq<char>,
    limit: usize,
    maximum_path_bytes: nat,
    tables: Seq<RequestRows>,
    history: Seq<Reply>,
)
    requires
        !text::is_blank(database_url),
        1 <= limit <= 256,
        forall|id: Seq<char>| #[trigger]
            tables[0].places.contains_key(id) ==> queue::queued_of(
                tables[0].places[id],
                maximum_path_bytes,
            ) is Some,
        rows::ran(
            recovering_queued(database_url, limit, maximum_path_bytes),
            on_requests(),
            tables,
            history,
        ),
    ensures
        queue::recover_step(
            database_url,
            limit,
            maximum_path_bytes,
            history,
        ) matches Step::Finish(Ok(found)) && {
            &&& found.len() <= limit
            &&& forall|i: int|
                0 <= i < found.len() ==> {
                    let id = (#[trigger] found[i]).request_id@;
                    &&& tables[0].places.contains_key(id)
                    &&& tables[0].places[id].queue_state@ == "queued"@
                    &&& is_place(found[i], tables[0].places[id])
                }
            &&& forall|i: int, j: int|
                0 <= i < j < found.len() ==> (#[trigger] found[i]).queued_at->0 <= (
                #[trigger] found[j]).queued_at->0 && found[i].request_id@ != found[j].request_id@
            &&& forall|id: Seq<char>| #[trigger]
                tables[0].places.contains_key(id) && tables[0].places[id].queue_state@ == "queued"@
                    ==> found.len() == limit || exists|i: int|
                    0 <= i < found.len() && (#[trigger] found[i]).request_id@ == id
        },
        tables.last() == tables[0],
{
    let operation = recovering_queued(database_url, limit, maximum_path_bytes);
    next_is_done(operation, on_requests(), tables, history, 0);
    next_is_done(operation, on_requests(), tables, history, 1);
    let listed = history[1]->QueuedRequests_0@;
    assert forall|i: int| 0 <= i < listed.len() implies queue::queued_of(
        #[trigger] listed[i],
        maximum_path_bytes,
    ) is Some by {
        assert(tables[0].places.contains_key(listed[i].request_id@));
    }
    end_is_reached(operation, on_requests(), tables, history, 2);
    let found = operation(history)->Finish_0->Ok_0;
    assert forall|i: int| 0 <= i < found.len() implies {
        let id = (#[trigger] found[i]).request_id@;
        &&& tables[0].places.contains_key(id)
        &&& tables[0].places[id].queue_state@ == "queued"@
        &&& is_place(found[i], tables[0].places[id])
    } by {
        assert(queue::queued_of(listed[i], maximum_path_bytes) == Some(found[i]));
    }
    assert forall|i: int, j: int| 0 <= i < j < found.len() implies (
    #[trigger] found[i]).queued_at->0 <= (#[trigger] found[j]).queued_at->0 && found[i].request_id@
        != found[j].request_id@ by {
        assert(listed[i].request_id@ != listed[j].request_id@);
    }
    assert forall|id: Seq<char>| #[trigger]
        tables[0].places.contains_key(id) && tables[0].places[id].queue_state@
            == "queued"@ implies found.len() == limit || exists|i: int|
        0 <= i < found.len() && (#[trigger] found[i]).request_id@ == id by {
        if is_among(listed, id) {
            let i = choose|i: int| 0 <= i < listed.len() && (#[trigger] listed[i]).request_id@ == id;
            assert(found[i].request_id@ == id);
        }
    }
}

/// The recording of an outcome.
pub open spec fn recording(
    database_url: Seq<char>,
    attempt_id: String,
    classification: String,
) -> spec_fn(Seq<Reply>) -> Step<ExecutionOutcome, ExecutionOutcomeError> {
    |history: Seq<Reply>|
        outcomes::create_step(database_url, attempt_id, classification, history)
}

/// An outcome as it is recorded.
pub open spec fn is_outcome(outcome: ExecutionOutcome, row: OutcomeRow) -> bool {
    &&& outcome.attempt_id@ == row.attempt_id@
    &&& outcome.classification@ == row.classification@
    &&& outcome.result_metadata@ == row.result_metadata@
    &&& outcome.created_at == row.created_at
}

/// The outcome of an attempt is recorded once, as it was to be. A second one is a conflict, and
/// nothing changes.
pub proof fn outcome_is_recorded_once(
    database_url: Seq<char>,
    attempt_id: String,
    classification: String,
    tables: Seq<RequestRows>,
    history: Seq<Reply>,
)
    requires
        !text::is_blank(database_url),
        database::is_component(attempt_id@),
        database::is_component(classification@),
        rows::ran(
            recording(database_url, attempt_id, classification),
            on_requests(),
            tables,
            history,
        ),
    ensures
        ({
            let step = outcomes::create_step(database_url, attempt_id, classification, history);
            let row = tables.last().outcomes[attempt_id@];
            if tables[0].outcomes.contains_key(attempt_id@) {
                step == outcomes::failed::<ExecutionOutcome>(ExecutionOutcomeFailure::Conflict)
                    && tables.last() == tables[0]
            } else {
                &&& tables.last() == (RequestRows {
                    outcomes: tables[0].outcomes.insert(attempt_id@, row),
                    ..tables[0]
                })
                &&& step matches Step::Finish(Ok(outcome)) && {
                    &&& is_outcome(outcome, row)
                    &&& outcome.attempt_id@ == attempt_id@
                    &&& outcome.classification@ == classification@
                }
            }
        }),
{
    let operation = recording(database_url, attempt_id, classification);
    next_is_done(operation, on_requests(), tables, history, 0);
    next_is_done(operation, on_requests(), tables, history, 1);
    if tables[0].outcomes.contains_key(attempt_id@) {
        end_is_reached(operation, on_requests(), tables, history, 2);
    } else {
        next_is_done(operation, on_requests(), tables, history, 2);
        end_is_reached(operation, on_requests(), tables, history, 3);
    }
}

/// The reading of an outcome.
pub open spec fn reading_outcome(database_url: Seq<char>, attempt_id: String) -> spec_fn(
    Seq<Reply>,
) -> Step<Option<ExecutionOutcome>, ExecutionOutcomeError> {
    |history: Seq<Reply>| outcomes::read_step(database_url, attempt_id, history)
}

/// An outcome is read as it is recorded, and nothing where there is none.
pub proof fn recorded_outcome_is_read(
    database_url: Seq<char>,
    attempt_id: String,
    tables: Seq<RequestRows>,
    history: Seq<Reply>,
)
    requires
        !text::is_blank(database_url),
        database::is_component(attempt_id@),
        tables[0].outcomes.contains_key(attempt_id@) ==> outcomes::outcome_of(
            tables[0].outcomes[attempt_id@],
        ) is Some,
        rows::ran(reading_outcome(database_url, attempt_id), on_requests(), tables, history),
    ensures
        outcomes::read_step(database_url, attempt_id, history) matches Step::Finish(Ok(read))
            && if tables[0].outcomes.contains_key(attempt_id@) {
            read matches Some(outcome) && is_outcome(outcome, tables[0].outcomes[attempt_id@])
        } else {
            read is None
        },
        tables.last() == tables[0],
{
    let operation = reading_outcome(database_url, attempt_id);
    next_is_done(operation, on_requests(), tables, history, 0);
    next_is_done(operation, on_requests(), tables, history, 1);
    end_is_reached(operation, on_requests(), tables, history, 2);
}

} // verus!
