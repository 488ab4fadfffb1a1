//! Attachments of sessions to build requests: attached once, then detached or delivered.

use crate::persistence::build_requests::{self, decode_build_request};
use crate::persistence::database::{
    self, component, since, AttachmentRow, DatabaseFault, Moment, Reply, Statement, Step,
};
use crate::persistence::sessions::{self, decode_protocol_session, ProtocolSessionState};
use crate::text;
use vstd::prelude::*;

verus! {

/// Why an operation on an attachment failed.
#[derive(Clone, Copy, Debug, PartialEq, Eq, Structural)]
pub enum RequestAttachmentFailure {
    Configuration,
    Connection,
    Conflict,
    Missing,
    InvalidState,
    Query,
    Commit,
}

impl RequestAttachmentFailure {
    pub open spec fn name(self) -> Seq<char> {
        match self {
            RequestAttachmentFailure::Configuration => "configuration"@,
            RequestAttachmentFailure::Connection => "connection"@,
            RequestAttachmentFailure::Conflict => "conflict"@,
            RequestAttachmentFailure::Missing => "missing"@,
            RequestAttachmentFailure::InvalidState => "invalid_state"@,
            RequestAttachmentFailure::Query => "query"@,
            RequestAttachmentFailure::Commit => "commit"@,
        }
    }

    pub fn as_str(self) -> (name: &'static str)
        ensures
            name@ == self.name(),
    {
        match self {
            RequestAttachmentFailure::Configuration => "configuration",
            RequestAttachmentFailure::Connection => "connection",
            RequestAttachmentFailure::Conflict => "conflict",
            RequestAttachmentFailure::Missing => "missing",
            RequestAttachmentFailure::InvalidState => "invalid_state",
            RequestAttachmentFailure::Query => "query",
            RequestAttachmentFailure::Commit => "commit",
        }
    }
}

/// A failure of an operation on an attachment.
#[derive(Clone, Copy, Debug, PartialEq, Eq, Structural)]
pub struct RequestAttachmentError(pub RequestAttachmentFailure);

impl RequestAttachmentError {
    pub fn failure(&self) -> (failure: RequestAttachmentFailure)
        ensures
            failure == self.0,
    {
        self.0
    }

    pub fn message(&self) -> (message: &'static str)
        ensures
            message@ == "request attachment state operation failed"@,
    {
        "request attachment state operation failed"
    }
}

#[derive(Clone, Copy, Debug, PartialEq, Eq, Structural)]
pub enum RequestAttachmentState {
    Attached,
    Detached,
    Delivered,
}

/// An attachment as it is recorded.
#[derive(Clone, Debug)]
pub struct RequestAttachment {
    pub session_id: String,
    pub request_id: String,
    pub state: RequestAttachmentState,
    pub attached_at: Moment,
    pub detached_at: Option<Moment>,
    pub delivered_at: Option<Moment>,
}

/// An attachment is named by a session and a request, and there is a database to ask.
pub open spec fn inputs_valid(
    database_url: Seq<char>,
    session_id: Seq<char>,
    request_id: Seq<char>,
) -> bool {
    &&& !text::is_blank(database_url)
    &&& database::is_component(session_id)
    &&& database::is_component(request_id)
}

fn valid_inputs(database_url: &str, session_id: &str, request_id: &str) -> (valid: bool)
    ensures
        valid == inputs_valid(database_url@, session_id@, request_id@),
{
    !text::blank(database_url) && component(session_id) && component(request_id)
}

/// The state that a row is in; `None` where its columns contradict each other.
pub open spec fn recorded_state(row: AttachmentRow) -> Option<RequestAttachmentState> {
    if row.state@ == "attached"@ && row.detached_at is None && row.delivered_at is None {
        Some(RequestAttachmentState::Attached)
    } else if row.state@ == "detached"@ && database::is_since(row.detached_at, row.attached_at)
        && row.delivered_at is None {
        Some(RequestAttachmentState::Detached)
    } else if row.state@ == "delivered"@ && row.detached_at is None && database::is_since(
        row.delivered_at,
        row.attached_at,
    ) {
        Some(RequestAttachmentState::Delivered)
    } else {
        None
    }
}

/// The attachment that a row records; `None` where the row is inconsistent.
pub open spec fn attachment_of(row: AttachmentRow) -> Option<RequestAttachment> {
    match recorded_state(row) {
        Some(state) => if database::is_component(row.session_id@) && database::is_component(
            row.request_id@,
        ) {
            Some(
                RequestAttachment {
                    session_id: row.session_id,
                    request_id: row.request_id,
                    state,
                    attached_at: row.attached_at,
                    detached_at: row.detached_at,
                    delivered_at: row.delivered_at,
                },
            )
        } else {
            None
        },
        None => None,
    }
}

/// Reads a row; one that is inconsistent is a failed query.
pub fn decode_request_attachment(row: &AttachmentRow) -> (attachment: Result<
    RequestAttachment,
    RequestAttachmentFailure,
>)
    ensures
        match attachment_of(*row) {
            Some(recorded) => attachment == Ok::<RequestAttachment, RequestAttachmentFailure>(
                recorded,
            ),
            None => attachment == Err::<RequestAttachment, RequestAttachmentFailure>(
                RequestAttachmentFailure::Query,
            ),
        },
{
    if !component(row.session_id.as_str()) || !component(row.request_id.as_str()) {
        return Err(RequestAttachmentFailure::Query);
    }
    let name = row.state.as_str();
    let state = if text::same_text(name, "attached") && row.detached_at.is_none()
        && row.delivered_at.is_none() {
        RequestAttachmentState::Attached
    } else if text::same_text(name, "detached") && since(row.detached_at, row.attached_at)
        && row.delivered_at.is_none() {
        RequestAttachmentState::Detached
    } else if text::same_text(name, "delivered") && row.detached_at.is_none() && since(
        row.delivered_at,
        row.attached_at,
    ) {
        RequestAttachmentState::Delivered
    } else {
        return Err(RequestAttachmentFailure::Query);
    };
    Ok(
        RequestAttachment {
            session_id: row.session_id.clone(),
            request_id: row.request_id.clone(),
            state,
            attached_at: row.attached_at,
            detached_at: row.detached_at,
            delivered_at: row.delivered_at,
        },
    )
}

pub open spec fn failed<T>(failure: RequestAttachmentFailure) -> Step<T, RequestAttachmentError> {
    Step::Finish(Err(RequestAttachmentError(failure)))
}

fn fail<T>(failure: RequestAttachmentFailure) -> (step: Step<T, RequestAttachmentError>)
    ensures
        step == failed::<T>(failure),
{
    Step::Finish(Err(RequestAttachmentError(failure)))
}

pub open spec fn begun<T>(history: Seq<Reply>) -> Option<Step<T, RequestAttachmentError>> {
    database::begun(history, RequestAttachmentError(RequestAttachmentFailure::Connection))
}

fn begin<T>(history: &Vec<Reply>) -> (step: Option<Step<T, RequestAttachmentError>>)
    ensures
        step == begun::<T>(history@),
{
    database::begin(history, RequestAttachmentError(RequestAttachmentFailure::Connection))
}

pub open spec fn committed<T>(history: Seq<Reply>, place: int, value: T) -> Step<T, RequestAttachmentError> {
    database::committed(
        history,
        place,
        value,
        RequestAttachmentError(RequestAttachmentFailure::Commit),
    )
}

fn commit<T>(
    history: &Vec<Reply>,
    place: usize,
    value: T,
) -> (step: Step<T, RequestAttachmentError>)
    ensures
        step == committed(history@, place as int, value),
{
    database::commit(
        history,
        place,
        value,
        RequestAttachmentError(RequestAttachmentFailure::Commit),
    )
}

/// Why a session cannot take a request, if it cannot: it has to be there, readable and open.
pub open spec fn session_refusal(reply: Reply) -> Option<RequestAttachmentFailure> {
    match reply {
        Reply::Session(None) => Some(RequestAttachmentFailure::Missing),
        Reply::Session(Some(row)) => match sessions::session_of(row) {
            Some(session) => if session.state == ProtocolSessionState::Open {
                None
            } else {
                Some(RequestAttachmentFailure::InvalidState)
            },
            None => Some(RequestAttachmentFailure::Query),
        },
        _ => Some(RequestAttachmentFailure::Query),
    }
}

/// Why a request cannot be attached, if it cannot: it has to be there and readable.
pub open spec fn request_refusal(reply: Reply, maximum_path_bytes: nat) -> Option<
    RequestAttachmentFailure,
> {
    match reply {
        Reply::BuildRequest(None) => Some(RequestAttachmentFailure::Missing),
        Reply::BuildRequest(Some(row)) => if build_requests::request_of(
            row,
            maximum_path_bytes,
        ) is Some {
            None
        } else {
            Some(RequestAttachmentFailure::Query)
        },
        _ => Some(RequestAttachmentFailure::Query),
    }
}

/// How a request is attached: to an open session, which stays locked meanwhile.
pub open spec fn attach_step(
    database_url: Seq<char>,
    session_id: String,
    request_id: String,
    maximum_path_bytes: nat,
    history: Seq<Reply>,
) -> Step<RequestAttachment, RequestAttachmentError> {
    if !inputs_valid(database_url, session_id@, request_id@) {
        failed(RequestAttachmentFailure::Configuration)
    } else if let Some(step) = begun(history) {
        step
    } else if history.len() == 1 {
        Step::Perform(Statement::HoldSession { session_id })
    } else if let Some(failure) = session_refusal(history[1]) {
        failed(failure)
    } else if history.len() == 2 {
        Step::Perform(Statement::ReadBuildRequest { request_id })
    } else if let Some(failure) = request_refusal(history[2], maximum_path_bytes) {
        failed(failure)
    } else if history.len() == 3 {
        Step::Perform(Statement::Attach { session_id, request_id })
    } else {
        match history[3] {
            Reply::Attachment(Some(row)) => match attachment_of(row) {
                Some(attachment) => committed(history, 4, attachment),
                None => failed(RequestAttachmentFailure::Query),
            },
            Reply::Failed(DatabaseFault::UniqueViolation) => failed(
                RequestAttachmentFailure::Conflict,
            ),
            _ => failed(RequestAttachmentFailure::Query),
        }
    }
}

/// Attaches a request to a session.
pub fn attach_request(
    database_url: &str,
    session_id: &String,
    request_id: &String,
    maximum_path_bytes: usize,
    history: &Vec<Reply>,
) -> (step: Step<RequestAttachment, RequestAttachmentError>)
    ensures
        step == attach_step(
            database_url@,
            *session_id,
            *request_id,
            maximum_path_bytes as nat,
            history@,
        ),
{
    if !valid_inputs(database_url, session_id.as_str(), request_id.as_str()) {
        return fail(RequestAttachmentFailure::Configuration);
    }
    if let Some(step) = begin(history) {
        return step;
    }
    if history.len() == 1 {
        return Step::Perform(Statement::HoldSession { session_id: session_id.clone() });
    }
    match &history[1] {
        Reply::Session(None) => {
            return fail(RequestAttachmentFailure::Missing);
        },
        Reply::Session(Some(row)) => match decode_protocol_session(row) {
            Ok(session) => {
                if session.state != ProtocolSessionState::Open {
                    return fail(RequestAttachmentFailure::InvalidState);
                }
            },
            Err(_) => {
                return fail(RequestAttachmentFailure::Query);
            },
        },
        _ => {
            return fail(RequestAttachmentFailure::Query);
        },
    }
    if history.len() == 2 {
        return Step::Perform(Statement::ReadBuildRequest { request_id: request_id.clone() });
    }
    match &history[2] {
        Reply::BuildRequest(None) => {
            return fail(RequestAttachmentFailure::Missing);
        },
        Reply::BuildRequest(Some(row)) => {
            if decode_build_request(row, maximum_path_bytes).is_err() {
                return fail(RequestAttachmentFailure::Query);
            }
        },
        _ => {
            return fail(RequestAttachmentFailure::Query);
        },
    }
    if history.len() == 3 {
        return Step::Perform(
            Statement::Attach { session_id: session_id.clone(), request_id: request_id.clone() },
        );
    }
    match &history[3] {
        Reply::Attachment(Some(row)) => match decode_request_attachment(row) {
            Ok(attachment) => commit(history, 4, attachment),
            Err(failure) => fail(failure),
        },
        Reply::Failed(DatabaseFault::UniqueViolation) => fail(RequestAttachmentFailure::Conflict),
        _ => fail(RequestAttachmentFailure::Query),
    }
}

/// How a request is detached: only while it is attached, and why not is looked up.
pub open spec fn detach_step(
    database_url: Seq<char>,
    session_id: String,
    request_id: String,
    history: Seq<Reply>,
) -> Step<RequestAttachment, RequestAttachmentError> {
    if !inputs_valid(database_url, session_id@, request_id@) {
        failed(RequestAttachmentFailure::Configuration)
    } else if let Some(step) = begun(history) {
        step
    } else if history.len() == 1 {
        Step::Perform(Statement::DetachAttached { session_id, request_id })
    } else {
        match history[1] {
            Reply::Attachment(Some(row)) => match attachment_of(row) {
                Some(attachment) => committed(history, 2, attachment),
                None => failed(RequestAttachmentFailure::Query),
            },
            Reply::Attachment(None) => if history.len() == 2 {
                Step::Perform(Statement::ReadAttachmentState { session_id, request_id })
            } else {
                match history[2] {
                    Reply::Text(None) => failed(RequestAttachmentFailure::Missing),
                    Reply::Text(Some(Some(state))) => if state@ == "detached"@ || state@
                        == "delivered"@ {
                        failed(RequestAttachmentFailure::InvalidState)
                    } else {
                        failed(RequestAttachmentFailure::Query)
                    },
                    _ => failed(RequestAttachmentFailure::Query),
                }
            },
            _ => failed(RequestAttachmentFailure::Query),
        }
    }
}

/// Detaches a request from a session.
pub fn detach_request(
    database_url: &str,
    session_id: &String,
    request_id: &String,
    history: &Vec<Reply>,
) -> (step: Step<RequestAttachment, RequestAttachmentError>)
    ensures
        step == detach_step(database_url@, *session_id, *request_id, history@),
{
    if !valid_inputs(database_url, session_id.as_str(), request_id.as_str()) {
        return fail(RequestAttachmentFailure::Configuration);
    }
    if let Some(step) = begin(history) {
        return step;
    }
    if history.len() == 1 {
        return Step::Perform(
            Statement::DetachAttached {
                session_id: session_id.clone(),
                request_id: request_id.clone(),
            },
        );
    }
    match &history[1] {
        Reply::Attachment(Some(row)) => match decode_request_attachment(row) {
            Ok(attachment) => commit(history, 2, attachment),
            Err(failure) => fail(failure),
        },
        Reply::Attachment(None) => {
            if history.len() == 2 {
                return Step::Perform(
                    Statement::ReadAttachmentState {
                        session_id: session_id.clone(),
                        request_id: request_id.clone(),
                    },
                );
            }
            match &history[2] {
                Reply::Text(None) => fail(RequestAttachmentFailure::Missing),
                Reply::Text(Some(Some(state))) => {
                    if text::same_text(state.as_str(), "detached") || text::same_text(
                        state.as_str(),
                        "delivered",
                    ) {
                        fail(RequestAttachmentFailure::InvalidState)
                    } else {
                        fail(RequestAttachmentFailure::Query)
                    }
                },
                _ => fail(RequestAttachmentFailure::Query),
            }
        },
        _ => fail(RequestAttachmentFailure::Query),
    }
}

/// How a delivery is recorded: only while the request is attached, and why not is looked up.
pub open spec fn delivery_step(
    database_url: Seq<char>,
    session_id: String,
    request_id: String,
    history: Seq<Reply>,
) -> Step<RequestAttachment, RequestAttachmentError> {
    if !inputs_valid(database_url, session_id@, request_id@) {
        failed(RequestAttachmentFailure::Configuration)
    } else if let Some(step) = begun(history) {
        step
    } else if history.len() == 1 {
        Step::Perform(Statement::DeliverAttached { session_id, request_id })
    } else {
        match history[1] {
            Reply::Attachment(Some(row)) => match attachment_of(row) {
                Some(attachment) => committed(history, 2, attachment),
                None => failed(RequestAttachmentFailure::Query),
            },
            Reply::Attachment(None) => if history.len() == 2 {
                Step::Perform(Statement::ReadAttachmentState { session_id, request_id })
            } else {
                match history[2] {
                    Reply::Text(None) => failed(RequestAttachmentFailure::Missing),
                    Reply::Text(Some(_)) => failed(RequestAttachmentFailure::InvalidState),
                    _ => failed(RequestAttachmentFailure::Query),
                }
            },
            _ => failed(RequestAttachmentFailure::Query),
        }
    }
}

/// Records that a session was given the result of its request.
pub fn complete_request_delivery(
    database_url: &str,
    session_id: &String,
    request_id: &String,
    history: &Vec<Reply>,
) -> (step: Step<RequestAttachment, RequestAttachmentError>)
    ensures
        step == delivery_step(database_url@, *session_id, *request_id, history@),
{
    if !valid_inputs(database_url, session_id.as_str(), request_id.as_str()) {
        return fail(RequestAttachmentFailure::Configuration);
    }
    if let Some(step) = begin(history) {
        return step;
    }
    if history.len() == 1 {
        return Step::Perform(
            Statement::DeliverAttached {
                session_id: session_id.clone(),
                request_id: request_id.clone(),
            },
        );
    }
    match &history[1] {
        Reply::Attachment(Some(row)) => match decode_request_attachment(row) {
            Ok(attachment) => commit(history, 2, attachment),
            Err(failure) => fail(failure),
        },
        Reply::Attachment(None) => {
            if history.len() == 2 {
                return Step::Perform(
                    Statement::ReadAttachmentState {
                        session_id: session_id.clone(),
                        request_id: request_id.clone(),
                    },
                );
            }
            match &history[2] {
                Reply::Text(None) => fail(RequestAttachmentFailure::Missing),
                Reply::Text(Some(_)) => fail(RequestAttachmentFailure::InvalidState),
                _ => fail(RequestAttachmentFailure::Query),
            }
        },
        _ => fail(RequestAttachmentFailure::Query),
    }
}

/// How an attachment is read.
pub open spec fn read_step(
    database_url: Seq<char>,
    session_id: String,
    request_id: String,
    history: Seq<Reply>,
) -> Step<Option<RequestAttachment>, RequestAttachmentError> {
    if !inputs_valid(database_url, session_id@, request_id@) {
        failed(RequestAttachmentFailure::Configuration)
    } else if let Some(step) = begun(history) {
        step
    } else if history.len() == 1 {
        Step::Perform(Statement::ReadAttachment { session_id, request_id })
    } else {
        match history[1] {
            Reply::Attachment(Some(row)) => match attachment_of(row) {
                Some(attachment) => Step::Finish(Ok(Some(attachment))),
                None => failed(RequestAttachmentFailure::Query),
            },
            Reply::Attachment(None) => Step::Finish(Ok(None)),
            _ => failed(RequestAttachmentFailure::Query),
        }
    }
}

/// Reads an attachment, if there is one.
pub fn read_request_attachment(
    database_url: &str,
    session_id: &String,
    request_id: &String,
    history: &Vec<Reply>,
) -> (step: Step<Option<RequestAttachment>, RequestAttachmentError>)
    ensures
        step == read_step(database_url@, *session_id, *request_id, history@),
{
    if !valid_inputs(database_url, session_id.as_str(), request_id.as_str()) {
        return fail(RequestAttachmentFailure::Configuration);
    }
    if let Some(step) = begin(history) {
        return step;
    }
    if history.len() == 1 {
        return Step::Perform(
            Statement::ReadAttachment {
                session_id: session_id.clone(),
                request_id: request_id.clone(),
            },
        );
    }
    match &history[1] {
        Reply::Attachment(Some(row)) => match decode_request_attachment(row) {
            Ok(attachment) => Step::Finish(Ok(Some(attachment))),
            Err(failure) => fail(failure),
        },
        Reply::Attachment(None) => Step::Finish(Ok(None)),
        _ => fail(RequestAttachmentFailure::Query),
    }
}

/// An attachment is never both detached and delivered, and neither happens before it was made.
pub proof fn attachment_ends_once(row: AttachmentRow)
    requires
        attachment_of(row) is Some,
    ensures
        ({
            let attachment = attachment_of(row)->0;
            &&& !(attachment.detached_at is Some && attachment.delivered_at is Some)
            &&& attachment.state == RequestAttachmentState::Attached <==> attachment.detached_at
                is None && attachment.delivered_at is None
            &&& attachment.detached_at is Some ==> attachment.detached_at->0
                >= attachment.attached_at
            &&& attachment.delivered_at is Some ==> attachment.delivered_at->0
                >= attachment.attached_at
        }),
{
}

} // verus!
