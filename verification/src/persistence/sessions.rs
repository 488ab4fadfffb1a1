//! Sessions of frontends: opened once, closed once.

use crate::persistence::database::{
    self, begin, bounded, commit, component, copy_option, since, DatabaseFault, Moment, Reply, SessionRow,
    Statement, Step,
};
use crate::service::ipc::MAX_IPC_CREDENTIAL_ID_BYTES;
use crate::text;
use vstd::prelude::*;

verus! {

/// Why an operation on a session failed.
#[derive(Clone, Copy, Debug, PartialEq, Eq, Structural)]
pub enum ProtocolSessionFailure {
    Configuration,
    Connection,
    Conflict,
    NotFound,
    InvalidTransition,
    Query,
    Commit,
}

impl ProtocolSessionFailure {
    pub open spec fn name(self) -> Seq<char> {
        match self {
            ProtocolSessionFailure::Configuration => "configuration"@,
            ProtocolSessionFailure::Connection => "connection"@,
            ProtocolSessionFailure::Conflict => "conflict"@,
            ProtocolSessionFailure::NotFound => "not-found"@,
            ProtocolSessionFailure::InvalidTransition => "invalid-transition"@,
            ProtocolSessionFailure::Query => "query"@,
            ProtocolSessionFailure::Commit => "commit"@,
        }
    }

    pub fn as_str(self) -> (name: &'static str)
        ensures
            name@ == self.name(),
    {
        match self {
            ProtocolSessionFailure::Configuration => "configuration",
            ProtocolSessionFailure::Connection => "connection",
            ProtocolSessionFailure::Conflict => "conflict",
            ProtocolSessionFailure::NotFound => "not-found",
            ProtocolSessionFailure::InvalidTransition => "invalid-transition",
            ProtocolSessionFailure::Query => "query",
            ProtocolSessionFailure::Commit => "commit",
        }
    }
}

/// A failed operation on a session.
#[derive(Clone, Copy, Debug, PartialEq, Eq, Structural)]
pub struct ProtocolSessionError(pub ProtocolSessionFailure);

impl ProtocolSessionError {
    pub fn failure(&self) -> (failure: ProtocolSessionFailure)
        ensures
            failure == self.0,
    {
        self.0
    }

    pub fn message(&self) -> (message: &'static str)
        ensures
            message@ == "protocol session state operation failed"@,
    {
        "protocol session state operation failed"
    }
}

#[derive(Clone, Copy, Debug, PartialEq, Eq, Structural)]
pub enum ProtocolSessionState {
    Open,
    Closed,
}

/// What vouches for a credential.
#[derive(Clone, Copy, Debug, PartialEq, Eq, Structural)]
pub enum AuthenticationAuthority {
    OpenSshPublicKey,
    OpenSshCertificate,
}

/// The text begins with another and goes on after it.
pub open spec fn extends(value: Seq<char>, prefix: Seq<char>) -> bool {
    prefix.is_prefix_of(value) && value.len() > prefix.len()
}

/// The authority for a credential, by how the credential begins.
pub open spec fn authority_of(credential_id: Seq<char>) -> Option<AuthenticationAuthority> {
    if extends(credential_id, "ssh-pubkey:"@) {
        Some(AuthenticationAuthority::OpenSshPublicKey)
    } else if extends(credential_id, "ssh-cert:"@) {
        Some(AuthenticationAuthority::OpenSshCertificate)
    } else {
        None
    }
}

impl AuthenticationAuthority {
    pub open spec fn spec_name(self) -> &'static str {
        match self {
            AuthenticationAuthority::OpenSshPublicKey => "openssh-public-key",
            AuthenticationAuthority::OpenSshCertificate => "openssh-certificate",
        }
    }

    pub fn for_credential_id(credential_id: &str) -> (authority: Option<Self>)
        ensures
            authority == authority_of(credential_id@),
    {
        let length: usize = credential_id.unicode_len();
        if text::starts_with(credential_id, "ssh-pubkey:") && length
            > "ssh-pubkey:".unicode_len() {
            Some(AuthenticationAuthority::OpenSshPublicKey)
        } else if text::starts_with(credential_id, "ssh-cert:") && length
            > "ssh-cert:".unicode_len() {
            Some(AuthenticationAuthority::OpenSshCertificate)
        } else {
            None
        }
    }

    pub fn as_str(self) -> (name: &'static str)
        ensures
            name == self.spec_name(),
    {
        match self {
            AuthenticationAuthority::OpenSshPublicKey => "openssh-public-key",
            AuthenticationAuthority::OpenSshCertificate => "openssh-certificate",
        }
    }
}

/// A session as it is recorded.
#[derive(Clone, Debug)]
pub struct ProtocolSession {
    pub session_id: String,
    pub requester_reference: String,
    pub credential_id: Option<String>,
    pub authentication_authority: Option<AuthenticationAuthority>,
    pub audit_subject: String,
    pub quota_subject: String,
    pub state: ProtocolSessionState,
    pub created_at: Moment,
    pub closed_at: Option<Moment>,
}

/// The digits of a digest of 32 bytes, in lower-case hexadecimal.
pub open spec fn is_requester_reference(value: Seq<char>) -> bool {
    &&& value.len() == 64
    &&& forall|i: int|
        0 <= i < value.len() ==> text::is_digit(#[trigger] value[i]) || 0x61 <= value[i] as u32
            <= 0x66
}

fn requester_reference_valid(value: &str) -> (valid: bool)
    ensures
        valid == is_requester_reference(value@),
{
    let characters = text::characters(value);
    if characters.len() != 64 {
        return false;
    }
    let mut i: usize = 0;
    while i < characters.len()
        invariant
            characters@ == value@,
            i <= characters@.len(),
            forall|j: int|
                0 <= j < i ==> text::is_digit(#[trigger] value@[j]) || 0x61 <= value@[j] as u32
                    <= 0x66,
        decreases characters@.len() - i,
    {
        let code: u32 = characters[i] as u32;
        if !((0x30 <= code && code <= 0x39) || (0x61 <= code && code <= 0x66)) {
            assert(!(text::is_digit(value@[i as int]) || 0x61 <= value@[i as int] as u32 <= 0x66));
            return false;
        }
        i += 1;
    }
    true
}

/// The names of a requester that a session is recorded with.
pub open spec fn subjects_valid(
    requester_reference: Seq<char>,
    audit_subject: Seq<char>,
    quota_subject: Seq<char>,
) -> bool {
    &&& is_requester_reference(requester_reference)
    &&& database::is_component(audit_subject)
    &&& database::is_bounded(quota_subject, MAX_IPC_CREDENTIAL_ID_BYTES as nat)
}

/// What is recorded of who vouched for the credential; `None` where it is inconsistent.
pub open spec fn recorded_authority(
    credential_id: Option<String>,
    authority: Option<String>,
) -> Option<
    Option<AuthenticationAuthority>,
> {
    match (credential_id, authority) {
        (None, None) => Some(None),
        (Some(credential), Some(name)) => match authority_of(credential@) {
            Some(found) => if found.spec_name()@ == name@ {
                Some(Some(found))
            } else {
                None
            },
            None => None,
        },
        _ => None,
    }
}

/// The state that a row is in; `None` where the row is inconsistent.
pub open spec fn recorded_state(row: SessionRow) -> Option<ProtocolSessionState> {
    if !subjects_valid(row.requester_reference@, row.audit_subject@, row.quota_subject@) {
        None
    } else if row.state@ == "open"@ && row.closed_at is None {
        Some(ProtocolSessionState::Open)
    } else if row.state@ == "closed"@ && database::is_since(row.closed_at, row.created_at) {
        Some(ProtocolSessionState::Closed)
    } else {
        None
    }
}

/// The session that a row records; `None` where the row is inconsistent.
pub open spec fn session_of(row: SessionRow) -> Option<ProtocolSession> {
    match (
        recorded_authority(row.credential_id, row.authentication_authority),
        recorded_state(row),
    ) {
        (Some(authentication_authority), Some(state)) => Some(
            ProtocolSession {
                session_id: row.session_id,
                requester_reference: row.requester_reference,
                credential_id: row.credential_id,
                authentication_authority,
                audit_subject: row.audit_subject,
                quota_subject: row.quota_subject,
                state,
                created_at: row.created_at,
                closed_at: row.closed_at,
            },
        ),
        _ => None,
    }
}

/// Reads a row; one that is inconsistent is a failed query.
pub fn decode_protocol_session(row: &SessionRow) -> (session: Result<
    ProtocolSession,
    ProtocolSessionFailure,
>)
    ensures
        match session_of(*row) {
            Some(recorded) => session == Ok::<ProtocolSession, ProtocolSessionFailure>(recorded),
            None => session == Err::<ProtocolSession, ProtocolSessionFailure>(
                ProtocolSessionFailure::Query,
            ),
        },
{
    proof {
        reveal_strlit("open");
        reveal_strlit("closed");
    }
    let authentication_authority = match (&row.credential_id, &row.authentication_authority) {
        (None, None) => None,
        (Some(credential_id), Some(authority)) => {
            match AuthenticationAuthority::for_credential_id(credential_id.as_str()) {
                Some(decoded) => {
                    if !text::same_text(decoded.as_str(), authority.as_str()) {
                        return Err(ProtocolSessionFailure::Query);
                    }
                    Some(decoded)
                },
                None => {
                    return Err(ProtocolSessionFailure::Query);
                },
            }
        },
        _ => {
            return Err(ProtocolSessionFailure::Query);
        },
    };
    if !requester_reference_valid(row.requester_reference.as_str()) || !component(
        row.audit_subject.as_str(),
    ) || !bounded(row.quota_subject.as_str(), MAX_IPC_CREDENTIAL_ID_BYTES) {
        return Err(ProtocolSessionFailure::Query);
    }
    let state = if text::same_text(row.state.as_str(), "open") && row.closed_at.is_none() {
        ProtocolSessionState::Open
    } else if text::same_text(row.state.as_str(), "closed") && since(row.closed_at, row.created_at) {
        ProtocolSessionState::Closed
    } else {
        return Err(ProtocolSessionFailure::Query);
    };
    Ok(
        ProtocolSession {
            session_id: row.session_id.clone(),
            requester_reference: row.requester_reference.clone(),
            credential_id: copy_option(&row.credential_id),
            authentication_authority,
            audit_subject: row.audit_subject.clone(),
            quota_subject: row.quota_subject.clone(),
            state,
            created_at: row.created_at,
            closed_at: row.closed_at,
        },
    )
}

/// What a session is opened with is complete and in bounds.
pub open spec fn inputs_valid(
    database_url: Seq<char>,
    session_id: Seq<char>,
    requester_reference: Seq<char>,
    credential_id: Seq<char>,
    audit_subject: Seq<char>,
    quota_subject: Seq<char>,
) -> bool {
    &&& database::is_component(session_id)
    &&& authority_of(credential_id) is Some
    &&& !text::is_blank(database_url)
    &&& text::byte_length(credential_id) <= MAX_IPC_CREDENTIAL_ID_BYTES
    &&& subjects_valid(requester_reference, audit_subject, quota_subject)
}

pub open spec fn failed<T>(failure: ProtocolSessionFailure) -> Step<T, ProtocolSessionError> {
    Step::Finish(Err(ProtocolSessionError(failure)))
}

fn fail<T>(failure: ProtocolSessionFailure) -> (step: Step<T, ProtocolSessionError>)
    ensures
        step == failed::<T>(failure),
{
    Step::Finish(Err(ProtocolSessionError(failure)))
}

/// How a session is opened: connect, insert it, commit.
pub open spec fn open_step(
    database_url: Seq<char>,
    session_id: String,
    requester_reference: String,
    credential_id: String,
    audit_subject: String,
    quota_subject: String,
    history: Seq<Reply>,
) -> Step<ProtocolSession, ProtocolSessionError> {
    if !inputs_valid(
        database_url,
        session_id@,
        requester_reference@,
        credential_id@,
        audit_subject@,
        quota_subject@,
    ) {
        failed(ProtocolSessionFailure::Configuration)
    } else if let Some(step) = database::begun(
        history,
        ProtocolSessionError(ProtocolSessionFailure::Connection),
    ) {
        step
    } else if history.len() == 1 {
        Step::Perform(
            Statement::OpenSession {
                session_id,
                requester_reference,
                credential_id,
                authentication_authority: (authority_of(credential_id@)->0).spec_name(),
                audit_subject,
                quota_subject,
            },
        )
    } else {
        match history[1] {
            Reply::Session(Some(row)) => match session_of(row) {
                Some(session) => database::committed(
                    history,
                    2,
                    session,
                    ProtocolSessionError(ProtocolSessionFailure::Commit),
                ),
                None => failed(ProtocolSessionFailure::Query),
            },
            Reply::Failed(DatabaseFault::UniqueViolation) => failed(
                ProtocolSessionFailure::Conflict,
            ),
            _ => failed(ProtocolSessionFailure::Query),
        }
    }
}

/// Opens a session.
pub fn open_protocol_session(
    database_url: &str,
    session_id: &String,
    requester_reference: &String,
    credential_id: &String,
    audit_subject: &String,
    quota_subject: &String,
    history: &Vec<Reply>,
) -> (step: Step<ProtocolSession, ProtocolSessionError>)
    ensures
        step == open_step(
            database_url@,
            *session_id,
            *requester_reference,
            *credential_id,
            *audit_subject,
            *quota_subject,
            history@,
        ),
{
    let authority = match AuthenticationAuthority::for_credential_id(credential_id.as_str()) {
        Some(authority) => authority,
        None => {
            return fail(ProtocolSessionFailure::Configuration);
        },
    };
    if !component(session_id.as_str()) || text::blank(database_url) || !requester_reference_valid(
        requester_reference.as_str(),
    ) || text::length_in_bytes(credential_id.as_str()) > MAX_IPC_CREDENTIAL_ID_BYTES || !component(
        audit_subject.as_str(),
    ) || !bounded(quota_subject.as_str(), MAX_IPC_CREDENTIAL_ID_BYTES) {
        return fail(ProtocolSessionFailure::Configuration);
    }
    if let Some(step) = begin(history, ProtocolSessionError(ProtocolSessionFailure::Connection)) {
        return step;
    }
    if history.len() == 1 {
        return Step::Perform(
            Statement::OpenSession {
                session_id: session_id.clone(),
                requester_reference: requester_reference.clone(),
                credential_id: credential_id.clone(),
                authentication_authority: authority.as_str(),
                audit_subject: audit_subject.clone(),
                quota_subject: quota_subject.clone(),
            },
        );
    }
    match &history[1] {
        Reply::Session(Some(row)) => match decode_protocol_session(row) {
            Ok(session) => commit(
                history,
                2,
                session,
                ProtocolSessionError(ProtocolSessionFailure::Commit),
            ),
            Err(failure) => fail(failure),
        },
        Reply::Failed(DatabaseFault::UniqueViolation) => fail(ProtocolSessionFailure::Conflict),
        _ => fail(ProtocolSessionFailure::Query),
    }
}

/// How a session is closed: only an open one can be, and why not is looked up.
pub open spec fn close_step(
    database_url: Seq<char>,
    session_id: String,
    history: Seq<Reply>,
) -> Step<
    ProtocolSession,
    ProtocolSessionError,
> {
    if !database::is_component(session_id@) || text::is_blank(database_url) {
        failed(ProtocolSessionFailure::Configuration)
    } else if let Some(step) = database::begun(
        history,
        ProtocolSessionError(ProtocolSessionFailure::Connection),
    ) {
        step
    } else if history.len() == 1 {
        Step::Perform(Statement::CloseOpenSession { session_id })
    } else {
        match history[1] {
            Reply::Session(Some(row)) => match session_of(row) {
                Some(session) => database::committed(
                    history,
                    2,
                    session,
                    ProtocolSessionError(ProtocolSessionFailure::Commit),
                ),
                None => failed(ProtocolSessionFailure::Query),
            },
            Reply::Session(None) => if history.len() == 2 {
                Step::Perform(Statement::ReadSessionState { session_id })
            } else {
                match history[2] {
                    Reply::Text(None) => failed(ProtocolSessionFailure::NotFound),
                    Reply::Text(Some(_)) => failed(ProtocolSessionFailure::InvalidTransition),
                    _ => failed(ProtocolSessionFailure::Query),
                }
            },
            _ => failed(ProtocolSessionFailure::Query),
        }
    }
}

/// Closes a session.
pub fn close_protocol_session(
    database_url: &str,
    session_id: &String,
    history: &Vec<Reply>,
) -> (step: Step<ProtocolSession, ProtocolSessionError>)
    ensures
        step == close_step(database_url@, *session_id, history@),
{
    if !component(session_id.as_str()) || text::blank(database_url) {
        return fail(ProtocolSessionFailure::Configuration);
    }
    if let Some(step) = begin(history, ProtocolSessionError(ProtocolSessionFailure::Connection)) {
        return step;
    }
    if history.len() == 1 {
        return Step::Perform(Statement::CloseOpenSession { session_id: session_id.clone() });
    }
    match &history[1] {
        Reply::Session(Some(row)) => match decode_protocol_session(row) {
            Ok(session) => commit(
                history,
                2,
                session,
                ProtocolSessionError(ProtocolSessionFailure::Commit),
            ),
            Err(failure) => fail(failure),
        },
        Reply::Session(None) => {
            if history.len() == 2 {
                return Step::Perform(
                    Statement::ReadSessionState { session_id: session_id.clone() },
                );
            }
            match &history[2] {
                Reply::Text(None) => fail(ProtocolSessionFailure::NotFound),
                Reply::Text(Some(_)) => fail(ProtocolSessionFailure::InvalidTransition),
                _ => fail(ProtocolSessionFailure::Query),
            }
        },
        _ => fail(ProtocolSessionFailure::Query),
    }
}

/// How a session is read.
pub open spec fn read_step(
    database_url: Seq<char>,
    session_id: String,
    history: Seq<Reply>,
) -> Step<
    Option<ProtocolSession>,
    ProtocolSessionError,
> {
    if !database::is_component(session_id@) || text::is_blank(database_url) {
        failed(ProtocolSessionFailure::Configuration)
    } else if let Some(step) = database::begun(
        history,
        ProtocolSessionError(ProtocolSessionFailure::Connection),
    ) {
        step
    } else if history.len() == 1 {
        Step::Perform(Statement::ReadSession { session_id })
    } else {
        match history[1] {
            Reply::Session(Some(row)) => match session_of(row) {
                Some(session) => Step::Finish(Ok(Some(session))),
                None => failed(ProtocolSessionFailure::Query),
            },
            Reply::Session(None) => Step::Finish(Ok(None)),
            _ => failed(ProtocolSessionFailure::Query),
        }
    }
}

/// Reads a session, if there is one.
pub fn read_protocol_session(
    database_url: &str,
    session_id: &String,
    history: &Vec<Reply>,
) -> (step: Step<Option<ProtocolSession>, ProtocolSessionError>)
    ensures
        step == read_step(database_url@, *session_id, history@),
{
    if !component(session_id.as_str()) || text::blank(database_url) {
        return fail(ProtocolSessionFailure::Configuration);
    }
    if let Some(step) = begin(history, ProtocolSessionError(ProtocolSessionFailure::Connection)) {
        return step;
    }
    if history.len() == 1 {
        return Step::Perform(Statement::ReadSession { session_id: session_id.clone() });
    }
    match &history[1] {
        Reply::Session(Some(row)) => match decode_protocol_session(row) {
            Ok(session) => Step::Finish(Ok(Some(session))),
            Err(failure) => fail(failure),
        },
        Reply::Session(None) => Step::Finish(Ok(None)),
        _ => fail(ProtocolSessionFailure::Query),
    }
}

/// Every session that is read has a requester and subjects in bounds, and is closed exactly when
/// it has a moment of closing, which is not before its creation.
pub proof fn recorded_session_is_consistent(row: SessionRow)
    requires
        session_of(row) is Some,
    ensures
        ({
            let session = session_of(row)->0;
            &&& subjects_valid(
                session.requester_reference@,
                session.audit_subject@,
                session.quota_subject@,
            )
            &&& session.state == ProtocolSessionState::Closed <==> session.closed_at is Some
            &&& session.closed_at is Some ==> session.closed_at->0 >= session.created_at
            &&& session.credential_id is Some <==> session.authentication_authority is Some
        }),
{
}

} // verus!
