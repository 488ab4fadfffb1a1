//! Leases on store paths: they keep derivations, inputs and outputs from being collected until they
//! are released or, for outputs, expire.

use crate::persistence::attachments::{
    self, decode_request_attachment, RequestAttachmentState,
};
use crate::persistence::build_requests::{self, decode_build_request};
use crate::persistence::database::{
    self, component, copy_option, since, DatabaseFault, LeaseRow, Moment, Reply, Statement,
    Step, WorkerLimits,
};
use crate::persistence::sessions::{self, decode_protocol_session, ProtocolSessionState};
use crate::persistence::RETAINED_INPUT_ADMISSION_LOCK_KEY;
use crate::text;
use crate::time::Span;
use vstd::prelude::*;

verus! {

/// The most released leases that are read at once.
pub const MAXIMUM_RELEASED_REQUEST_LEASES_PAGE_ROWS: usize = 256;

/// Why an operation on leases failed.
#[derive(Clone, Copy, Debug, PartialEq, Eq, Structural)]
pub enum StoreLeaseFailure {
    Configuration,
    Connection,
    Conflict,
    Capacity,
    Missing,
    InvalidState,
    Query,
    Commit,
}

impl StoreLeaseFailure {
    pub open spec fn name(self) -> Seq<char> {
        match self {
            StoreLeaseFailure::Configuration => "configuration"@,
            StoreLeaseFailure::Connection => "connection"@,
            StoreLeaseFailure::Conflict => "conflict"@,
            StoreLeaseFailure::Capacity => "capacity"@,
            StoreLeaseFailure::Missing => "missing"@,
            StoreLeaseFailure::InvalidState => "invalid_state"@,
            StoreLeaseFailure::Query => "query"@,
            StoreLeaseFailure::Commit => "commit"@,
        }
    }

    pub fn as_str(self) -> (name: &'static str)
        ensures
            name@ == self.name(),
    {
        match self {
            StoreLeaseFailure::Configuration => "configuration",
            StoreLeaseFailure::Connection => "connection",
            StoreLeaseFailure::Conflict => "conflict",
            StoreLeaseFailure::Capacity => "capacity",
            StoreLeaseFailure::Missing => "missing",
            StoreLeaseFailure::InvalidState => "invalid_state",
            StoreLeaseFailure::Query => "query",
            StoreLeaseFailure::Commit => "commit",
        }
    }
}

/// A failure of an operation on leases.
#[derive(Clone, Copy, Debug, PartialEq, Eq, Structural)]
pub struct StoreLeaseError(pub StoreLeaseFailure);

impl StoreLeaseError {
    pub fn failure(&self) -> (failure: StoreLeaseFailure)
        ensures
            failure == self.0,
    {
        self.0
    }

    pub fn message(&self) -> (message: &'static str)
        ensures
            message@ == "store lease state operation failed"@,
    {
        "store lease state operation failed"
    }
}

/// What a lease belongs to.
#[derive(Clone, Copy, Debug, PartialEq, Eq, Structural)]
pub enum StoreLeaseOwnerKind {
    Session,
    Request,
}

impl StoreLeaseOwnerKind {
    pub open spec fn spec_name(self) -> &'static str {
        match self {
            StoreLeaseOwnerKind::Session => "session",
            StoreLeaseOwnerKind::Request => "request",
        }
    }

    pub fn as_str(self) -> (name: &'static str)
        ensures
            name == self.spec_name(),
    {
        match self {
            StoreLeaseOwnerKind::Session => "session",
            StoreLeaseOwnerKind::Request => "request",
        }
    }

    pub open spec fn named(name: Seq<char>) -> Option<Self> {
        if name == "session"@ {
            Some(StoreLeaseOwnerKind::Session)
        } else if name == "request"@ {
            Some(StoreLeaseOwnerKind::Request)
        } else {
            None
        }
    }

    pub fn parse(name: &str) -> (found: Option<Self>)
        ensures
            found == Self::named(name@),
    {
        if text::same_text(name, "session") {
            Some(StoreLeaseOwnerKind::Session)
        } else if text::same_text(name, "request") {
            Some(StoreLeaseOwnerKind::Request)
        } else {
            None
        }
    }
}

/// What a lease is for.
#[derive(Clone, Copy, Debug, PartialEq, Eq, Structural)]
pub enum StoreLeasePurpose {
    Derivation,
    Input,
    Output,
    Transfer,
}

impl StoreLeasePurpose {
    pub open spec fn spec_name(self) -> &'static str {
        match self {
            StoreLeasePurpose::Derivation => "derivation",
            StoreLeasePurpose::Input => "input",
            StoreLeasePurpose::Output => "output",
            StoreLeasePurpose::Transfer => "transfer",
        }
    }

    pub fn as_str(self) -> (name: &'static str)
        ensures
            name == self.spec_name(),
    {
        match self {
            StoreLeasePurpose::Derivation => "derivation",
            StoreLeasePurpose::Input => "input",
            StoreLeasePurpose::Output => "output",
            StoreLeasePurpose::Transfer => "transfer",
        }
    }

    pub open spec fn named(name: Seq<char>) -> Option<Self> {
        if name == "derivation"@ {
            Some(StoreLeasePurpose::Derivation)
        } else if name == "input"@ {
            Some(StoreLeasePurpose::Input)
        } else if name == "output"@ {
            Some(StoreLeasePurpose::Output)
        } else if name == "transfer"@ {
            Some(StoreLeasePurpose::Transfer)
        } else {
            None
        }
    }

    pub fn parse(name: &str) -> (found: Option<Self>)
        ensures
            found == Self::named(name@),
    {
        if text::same_text(name, "derivation") {
            Some(StoreLeasePurpose::Derivation)
        } else if text::same_text(name, "input") {
            Some(StoreLeasePurpose::Input)
        } else if text::same_text(name, "output") {
            Some(StoreLeasePurpose::Output)
        } else if text::same_text(name, "transfer") {
            Some(StoreLeasePurpose::Transfer)
        } else {
            None
        }
    }
}

/// Whether a lease still holds.
#[derive(Clone, Copy, Debug, PartialEq, Eq, Structural)]
pub enum StoreLeaseState {
    Active,
    Released,
}

impl StoreLeaseState {
    pub open spec fn named(name: Seq<char>) -> Option<Self> {
        if name == "active"@ {
            Some(StoreLeaseState::Active)
        } else if name == "released"@ {
            Some(StoreLeaseState::Released)
        } else {
            None
        }
    }

    pub fn parse(name: &str) -> (found: Option<Self>)
        ensures
            found == Self::named(name@),
    {
        if text::same_text(name, "active") {
            Some(StoreLeaseState::Active)
        } else if text::same_text(name, "released") {
            Some(StoreLeaseState::Released)
        } else {
            None
        }
    }
}

impl StoreLeasePurpose {
    /// The lease is on something that a build reads, which counts as retained.
    pub open spec fn is_retained(self) -> bool {
        self == StoreLeasePurpose::Derivation || self == StoreLeasePurpose::Input
    }

    fn retained(self) -> (found: bool)
        ensures
            found == self.is_retained(),
    {
        matches!(self, StoreLeasePurpose::Derivation | StoreLeasePurpose::Input)
    }
}

/// What a name stands for is what has that name.
pub proof fn lease_names_are_distinct(
    owner_kind: StoreLeaseOwnerKind,
    purpose: StoreLeasePurpose,
)
    ensures
        StoreLeaseOwnerKind::named(owner_kind.spec_name()@) == Some(owner_kind),
        StoreLeasePurpose::named(purpose.spec_name()@) == Some(purpose),
{
    reveal_strlit("session");
    reveal_strlit("request");
    reveal_strlit("derivation");
    reveal_strlit("input");
    reveal_strlit("output");
    reveal_strlit("transfer");
    assert("session"@[0] != "request"@[0]);
    assert("derivation"@.len() == 10);
    assert("input"@.len() == 5);
    assert("output"@.len() == 6);
    assert("transfer"@.len() == 8);
}

/// A lease as it is recorded.
#[derive(Clone, Debug)]
pub struct StoreLeaseRecord {
    pub lease_id: String,
    pub owner_kind: StoreLeaseOwnerKind,
    pub owner_id: String,
    pub store_path: String,
    pub purpose: StoreLeasePurpose,
    pub state: StoreLeaseState,
    pub created_at: Moment,
    pub released_at: Option<Moment>,
    pub expires_at: Option<Moment>,
    pub nar_size: Option<u64>,
}

/// A path below the store, of bounded length and on one line.
pub open spec fn is_store_path(path: Seq<char>, maximum_bytes: nat) -> bool {
    &&& text::byte_length(path) <= maximum_bytes
    &&& sessions::extends(path, "/nix/store/"@)
    &&& !path.contains('\0')
    &&& !path.contains('\n')
    &&& !path.contains('\r')
}

/// Tells a path below the store from another text.
pub fn store_path_valid(path: &str, maximum_bytes: usize) -> (valid: bool)
    ensures
        valid == is_store_path(path@, maximum_bytes as nat),
{
    text::length_in_bytes(path) <= maximum_bytes && text::starts_with(path, "/nix/store/")
        && path.unicode_len() > "/nix/store/".unicode_len() && !text::contains_character(path, '\0')
        && !text::contains_character(path, '\n') && !text::contains_character(path, '\r')
}

/// What a lease is recorded with is complete and in bounds.
pub open spec fn is_lease(
    lease_id: Seq<char>,
    owner_id: Seq<char>,
    store_path: Seq<char>,
    maximum_path_bytes: nat,
) -> bool {
    &&& database::is_component(lease_id)
    &&& database::is_component(owner_id)
    &&& is_store_path(store_path, maximum_path_bytes)
}

fn lease_valid(
    lease_id: &str,
    owner_id: &str,
    store_path: &str,
    maximum_path_bytes: usize,
) -> (valid: bool)
    ensures
        valid == is_lease(lease_id@, owner_id@, store_path@, maximum_path_bytes as nat),
{
    component(lease_id) && component(owner_id) && store_path_valid(store_path, maximum_path_bytes)
}

/// The state that a row is in; `None` where its columns contradict each other.
pub open spec fn recorded_state(row: LeaseRow) -> Option<StoreLeaseState> {
    match StoreLeaseState::named(row.state@) {
        Some(StoreLeaseState::Active) => if row.released_at is None {
            Some(StoreLeaseState::Active)
        } else {
            None
        },
        Some(StoreLeaseState::Released) => if database::is_since(
            row.released_at,
            row.created_at,
        ) {
            Some(StoreLeaseState::Released)
        } else {
            None
        },
        None => None,
    }
}

/// Leases on outputs expire, and no others do; an active one does not expire before it was made.
pub open spec fn expiry_fits(
    purpose: StoreLeasePurpose,
    state: StoreLeaseState,
    created_at: Moment,
    expires_at: Option<Moment>,
) -> bool {
    match expires_at {
        Some(expires_at) => purpose == StoreLeasePurpose::Output && (state
            == StoreLeaseState::Active ==> expires_at >= created_at),
        None => purpose != StoreLeasePurpose::Output,
    }
}

/// A size, where there is one; `None` where it is negative.
pub open spec fn recorded_size(size: Option<i64>) -> Option<Option<u64>> {
    match size {
        Some(size) => if size >= 0 {
            Some(Some(size as u64))
        } else {
            None
        },
        None => Some(None),
    }
}

/// The lease that a row records; `None` where the row is inconsistent.
pub open spec fn lease_of(row: LeaseRow, maximum_path_bytes: nat) -> Option<StoreLeaseRecord> {
    match (
        StoreLeaseOwnerKind::named(row.owner_kind@),
        StoreLeasePurpose::named(row.purpose@),
        recorded_state(row),
        recorded_size(row.nar_size),
    ) {
        (Some(owner_kind), Some(purpose), Some(state), Some(nar_size)) => if is_lease(
            row.lease_id@,
            row.owner_id@,
            row.store_path@,
            maximum_path_bytes,
        ) && expiry_fits(purpose, state, row.created_at, row.expires_at) {
            Some(
                StoreLeaseRecord {
                    lease_id: row.lease_id,
                    owner_kind,
                    owner_id: row.owner_id,
                    store_path: row.store_path,
                    purpose,
                    state,
                    created_at: row.created_at,
                    released_at: row.released_at,
                    expires_at: row.expires_at,
                    nar_size,
                },
            )
        } else {
            None
        },
        _ => None,
    }
}

/// Reads a row; one that is inconsistent is a failed query.
pub fn decode_store_lease(row: &LeaseRow, maximum_path_bytes: usize) -> (lease: Result<
    StoreLeaseRecord,
    StoreLeaseFailure,
>)
    ensures
        match lease_of(*row, maximum_path_bytes as nat) {
            Some(recorded) => lease == Ok::<StoreLeaseRecord, StoreLeaseFailure>(recorded),
            None => lease == Err::<StoreLeaseRecord, StoreLeaseFailure>(StoreLeaseFailure::Query),
        },
{
    let nar_size = match row.nar_size {
        Some(size) => {
            if size < 0 {
                return Err(StoreLeaseFailure::Query);
            }
            Some(size as u64)
        },
        None => None,
    };
    if !lease_valid(
        row.lease_id.as_str(),
        row.owner_id.as_str(),
        row.store_path.as_str(),
        maximum_path_bytes,
    ) {
        return Err(StoreLeaseFailure::Query);
    }
    let owner_kind = match StoreLeaseOwnerKind::parse(row.owner_kind.as_str()) {
        Some(owner_kind) => owner_kind,
        None => {
            return Err(StoreLeaseFailure::Query);
        },
    };
    let purpose = match StoreLeasePurpose::parse(row.purpose.as_str()) {
        Some(purpose) => purpose,
        None => {
            return Err(StoreLeaseFailure::Query);
        },
    };
    let state = match StoreLeaseState::parse(row.state.as_str()) {
        Some(StoreLeaseState::Active) => {
            if row.released_at.is_some() {
                return Err(StoreLeaseFailure::Query);
            }
            StoreLeaseState::Active
        },
        Some(StoreLeaseState::Released) => {
            if !since(row.released_at, row.created_at) {
                return Err(StoreLeaseFailure::Query);
            }
            StoreLeaseState::Released
        },
        None => {
            return Err(StoreLeaseFailure::Query);
        },
    };
    match row.expires_at {
        Some(expires_at) => {
            if purpose != StoreLeasePurpose::Output || (state == StoreLeaseState::Active
                && expires_at < row.created_at) {
                return Err(StoreLeaseFailure::Query);
            }
        },
        None => {
            if purpose == StoreLeasePurpose::Output {
                return Err(StoreLeaseFailure::Query);
            }
        },
    }
    Ok(
        StoreLeaseRecord {
            lease_id: row.lease_id.clone(),
            owner_kind,
            owner_id: row.owner_id.clone(),
            store_path: row.store_path.clone(),
            purpose,
            state,
            created_at: row.created_at,
            released_at: row.released_at,
            expires_at: row.expires_at,
            nar_size,
        },
    )
}

/// Every lease that is read is released exactly when it has a moment of release, which is not
/// before its creation, and exactly the leases on outputs expire.
pub proof fn recorded_lease_is_consistent(row: LeaseRow, maximum_path_bytes: nat)
    requires
        lease_of(row, maximum_path_bytes) is Some,
    ensures
        ({
            let lease = lease_of(row, maximum_path_bytes)->0;
            &&& lease.state == StoreLeaseState::Released <==> lease.released_at is Some
            &&& lease.released_at is Some ==> lease.released_at->0 >= lease.created_at
            &&& lease.purpose == StoreLeasePurpose::Output <==> lease.expires_at is Some
        }),
{
}

/// The leases that rows record; `None` where one of the rows is inconsistent.
pub open spec fn leases_of(rows: Seq<LeaseRow>, maximum_path_bytes: nat) -> Option<
    Seq<StoreLeaseRecord>,
> {
    if forall|i: int|
        0 <= i < rows.len() ==> lease_of(#[trigger] rows[i], maximum_path_bytes) is Some {
        Some(rows.map_values(|row: LeaseRow| lease_of(row, maximum_path_bytes)->0))
    } else {
        None
    }
}

fn decode_leases(rows: &Vec<LeaseRow>, maximum_path_bytes: usize) -> (leases: Option<
    Vec<StoreLeaseRecord>,
>)
    ensures
        match leases {
            Some(decoded) => leases_of(rows@, maximum_path_bytes as nat) == Some(decoded@),
            None => leases_of(rows@, maximum_path_bytes as nat) is None,
        },
{
    let mut decoded: Vec<StoreLeaseRecord> = Vec::new();
    let mut i: usize = 0;
    while i < rows.len()
        invariant
            i <= rows@.len(),
            decoded@.len() == i,
            forall|j: int|
                0 <= j < i ==> lease_of(#[trigger] rows@[j], maximum_path_bytes as nat) == Some(
                    decoded@[j],
                ),
        decreases rows@.len() - i,
    {
        match decode_store_lease(&rows[i], maximum_path_bytes) {
            Ok(lease) => decoded.push(lease),
            Err(_) => {
                assert(lease_of(rows@[i as int], maximum_path_bytes as nat) is None);
                return None;
            },
        }
        i += 1;
    }
    assert(decoded@ =~= rows@.map_values(
        |row: LeaseRow| lease_of(row, maximum_path_bytes as nat)->0,
    ));
    Some(decoded)
}

pub open spec fn failed<T>(failure: StoreLeaseFailure) -> Step<T, StoreLeaseError> {
    Step::Finish(Err(StoreLeaseError(failure)))
}

fn fail<T>(failure: StoreLeaseFailure) -> (step: Step<T, StoreLeaseError>)
    ensures
        step == failed::<T>(failure),
{
    Step::Finish(Err(StoreLeaseError(failure)))
}

pub open spec fn begun<T>(history: Seq<Reply>) -> Option<Step<T, StoreLeaseError>> {
    database::begun(history, StoreLeaseError(StoreLeaseFailure::Connection))
}

fn begin<T>(history: &Vec<Reply>) -> (step: Option<Step<T, StoreLeaseError>>)
    ensures
        step == begun::<T>(history@),
{
    database::begin(history, StoreLeaseError(StoreLeaseFailure::Connection))
}

pub open spec fn committed<T>(history: Seq<Reply>, place: int, value: T) -> Step<T, StoreLeaseError> {
    database::committed(history, place, value, StoreLeaseError(StoreLeaseFailure::Commit))
}

fn commit<T>(history: &Vec<Reply>, place: usize, value: T) -> (step: Step<T, StoreLeaseError>)
    ensures
        step == committed(history@, place as int, value),
{
    database::commit(history, place, value, StoreLeaseError(StoreLeaseFailure::Commit))
}

/// Why a request cannot have leases, if it cannot: it has to be there and readable.
pub open spec fn request_refusal(reply: Reply, maximum_path_bytes: nat) -> Option<
    StoreLeaseFailure,
> {
    match reply {
        Reply::BuildRequest(None) => Some(StoreLeaseFailure::Missing),
        Reply::BuildRequest(Some(row)) => if build_requests::request_of(
            row,
            maximum_path_bytes,
        ) is Some {
            None
        } else {
            Some(StoreLeaseFailure::Query)
        },
        _ => Some(StoreLeaseFailure::Query),
    }
}

fn refused_request(reply: &Reply, maximum_path_bytes: usize) -> (refusal: Option<StoreLeaseFailure>)
    ensures
        refusal == request_refusal(*reply, maximum_path_bytes as nat),
{
    match reply {
        Reply::BuildRequest(None) => Some(StoreLeaseFailure::Missing),
        Reply::BuildRequest(Some(row)) => {
            if decode_build_request(row, maximum_path_bytes).is_ok() {
                None
            } else {
                Some(StoreLeaseFailure::Query)
            }
        },
        _ => Some(StoreLeaseFailure::Query),
    }
}

/// Why a session cannot have leases, if it cannot: it has to be there, readable and open.
pub open spec fn session_refusal(reply: Reply) -> Option<StoreLeaseFailure> {
    match reply {
        Reply::Session(None) => Some(StoreLeaseFailure::Missing),
        Reply::Session(Some(row)) => match sessions::session_of(row) {
            Some(session) => if session.state == ProtocolSessionState::Open {
                None
            } else {
                Some(StoreLeaseFailure::InvalidState)
            },
            None => Some(StoreLeaseFailure::Query),
        },
        _ => Some(StoreLeaseFailure::Query),
    }
}

fn refused_session(reply: &Reply) -> (refusal: Option<StoreLeaseFailure>)
    ensures
        refusal == session_refusal(*reply),
{
    match reply {
        Reply::Session(None) => Some(StoreLeaseFailure::Missing),
        Reply::Session(Some(row)) => match decode_protocol_session(row) {
            Ok(session) => {
                if session.state == ProtocolSessionState::Open {
                    None
                } else {
                    Some(StoreLeaseFailure::InvalidState)
                }
            },
            Err(_) => Some(StoreLeaseFailure::Query),
        },
        _ => Some(StoreLeaseFailure::Query),
    }
}

/// A reply with the row of a lease; what a row with the same key means is given.
pub open spec fn replied_lease(
    reply: Reply,
    violation: StoreLeaseFailure,
    maximum_path_bytes: nat,
) -> Result<StoreLeaseRecord, StoreLeaseFailure> {
    match reply {
        Reply::Lease(Some(row)) => match lease_of(row, maximum_path_bytes) {
            Some(lease) => Ok(lease),
            None => Err(StoreLeaseFailure::Query),
        },
        Reply::Failed(DatabaseFault::UniqueViolation) => Err(violation),
        _ => Err(StoreLeaseFailure::Query),
    }
}

fn lease_in(reply: &Reply, violation: StoreLeaseFailure, maximum_path_bytes: usize) -> (lease: Result<
    StoreLeaseRecord,
    StoreLeaseFailure,
>)
    ensures
        lease == replied_lease(*reply, violation, maximum_path_bytes as nat),
{
    match reply {
        Reply::Lease(Some(row)) => decode_store_lease(row, maximum_path_bytes),
        Reply::Failed(DatabaseFault::UniqueViolation) => Err(violation),
        _ => Err(StoreLeaseFailure::Query),
    }
}

/// Replies with one lease each; the first that has none decides.
pub open spec fn replied_leases(
    replies: Seq<Reply>,
    violation: StoreLeaseFailure,
    maximum_path_bytes: nat,
) -> Result<Seq<StoreLeaseRecord>, StoreLeaseFailure>
    decreases replies.len(),
{
    if replies.len() == 0 {
        Ok(Seq::empty())
    } else {
        match replied_leases(replies.drop_last(), violation, maximum_path_bytes) {
            Ok(earlier) => match replied_lease(replies.last(), violation, maximum_path_bytes) {
                Ok(lease) => Ok(earlier.push(lease)),
                Err(failure) => Err(failure),
            },
            Err(failure) => Err(failure),
        }
    }
}

proof fn replied_failure_stays(
    replies: Seq<Reply>,
    count: nat,
    violation: StoreLeaseFailure,
    maximum_path_bytes: nat,
)
    requires
        count <= replies.len(),
        replied_leases(replies.take(count as int), violation, maximum_path_bytes) is Err,
    ensures
        replied_leases(replies, violation, maximum_path_bytes) == replied_leases(
            replies.take(count as int),
            violation,
            maximum_path_bytes,
        ),
    decreases replies.len() - count,
{
    if count == replies.len() {
        assert(replies.take(count as int) =~= replies);
    } else {
        assert(replies.take((count + 1) as int).drop_last() =~= replies.take(count as int));
        replied_failure_stays(replies, count + 1, violation, maximum_path_bytes);
    }
}

/// Reads one lease of each of so many replies.
fn leases_in(
    history: &Vec<Reply>,
    place: usize,
    count: usize,
    violation: StoreLeaseFailure,
    maximum_path_bytes: usize,
) -> (leases: Result<Vec<StoreLeaseRecord>, StoreLeaseFailure>)
    requires
        place + count <= history@.len(),
    ensures
        match leases {
            Ok(read) => replied_leases(
                history@.subrange(place as int, place + count),
                violation,
                maximum_path_bytes as nat,
            ) == Ok::<Seq<StoreLeaseRecord>, StoreLeaseFailure>(read@),
            Err(failure) => replied_leases(
                history@.subrange(place as int, place + count),
                violation,
                maximum_path_bytes as nat,
            ) == Err::<Seq<StoreLeaseRecord>, StoreLeaseFailure>(failure),
        },
{
    let ghost replies = history@.subrange(place as int, place + count);
    let length: usize = history.len();
    let mut read: Vec<StoreLeaseRecord> = Vec::new();
    let mut i: usize = 0;
    assert(replies.take(0) =~= Seq::<Reply>::empty());
    assert(read@ =~= Seq::<StoreLeaseRecord>::empty());
    while i < count
        invariant
            i <= count,
            length == history@.len(),
            place + count <= length,
            replies == history@.subrange(place as int, place + count),
            replied_leases(replies.take(i as int), violation, maximum_path_bytes as nat) == Ok::<
                Seq<StoreLeaseRecord>,
                StoreLeaseFailure,
            >(read@),
        decreases count - i,
    {
        assert(replies.take(i + 1).drop_last() =~= replies.take(i as int));
        assert(replies.take(i + 1).last() == history@[place + i]);
        match lease_in(&history[place + i], violation, maximum_path_bytes) {
            Ok(lease) => read.push(lease),
            Err(failure) => {
                proof {
                    replied_failure_stays(
                        replies,
                        (i + 1) as nat,
                        violation,
                        maximum_path_bytes as nat,
                    );
                }
                return Err(failure);
            },
        }
        i += 1;
    }
    assert(replies.take(count as int) =~= replies);
    Ok(read)
}

/// How a lease is created for an owner that is there: a lease on an output holds for an hour, and
/// one that retains something counts one byte.
pub open spec fn create_step(
    database_url: Seq<char>,
    lease_id: String,
    owner_kind: StoreLeaseOwnerKind,
    owner_id: String,
    store_path: String,
    purpose: StoreLeasePurpose,
    limits: WorkerLimits,
    history: Seq<Reply>,
) -> Step<StoreLeaseRecord, StoreLeaseError> {
    if text::is_blank(database_url) || !is_lease(
        lease_id@,
        owner_id@,
        store_path@,
        limits.maximum_store_path_bytes as nat,
    ) {
        failed(StoreLeaseFailure::Configuration)
    } else if let Some(step) = begun(history) {
        step
    } else if history.len() == 1 {
        match owner_kind {
            StoreLeaseOwnerKind::Request => Step::Perform(
                Statement::ReadBuildRequest { request_id: owner_id },
            ),
            StoreLeaseOwnerKind::Session => Step::Perform(
                Statement::HoldSession { session_id: owner_id },
            ),
        }
    } else if let Some(failure) = match owner_kind {
        StoreLeaseOwnerKind::Request => request_refusal(
            history[1],
            limits.maximum_store_path_bytes as nat,
        ),
        StoreLeaseOwnerKind::Session => session_refusal(history[1]),
    } {
        failed(failure)
    } else if history.len() == 2 {
        Step::Perform(
            Statement::InsertLease {
                lease_id,
                owner_kind: owner_kind.spec_name(),
                owner_id,
                store_path,
                purpose: purpose.spec_name(),
                expires_after_seconds: if purpose == StoreLeasePurpose::Output {
                    Some(3600)
                } else {
                    None
                },
                nar_size: if purpose.is_retained() {
                    Some(1)
                } else {
                    None
                },
            },
        )
    } else {
        match replied_lease(
            history[2],
            StoreLeaseFailure::Conflict,
            limits.maximum_store_path_bytes as nat,
        ) {
            Ok(lease) => committed(history, 3, lease),
            Err(failure) => failed(failure),
        }
    }
}

/// Creates a lease.
pub fn create_store_lease(
    database_url: &str,
    lease_id: &String,
    owner_kind: StoreLeaseOwnerKind,
    owner_id: &String,
    store_path: &String,
    purpose: StoreLeasePurpose,
    limits: &WorkerLimits,
    history: &Vec<Reply>,
) -> (step: Step<StoreLeaseRecord, StoreLeaseError>)
    ensures
        step == create_step(
            database_url@,
            *lease_id,
            owner_kind,
            *owner_id,
            *store_path,
            purpose,
            *limits,
            history@,
        ),
{
    let maximum: usize = limits.maximum_store_path_bytes;
    if text::blank(database_url) || !lease_valid(
        lease_id.as_str(),
        owner_id.as_str(),
        store_path.as_str(),
        maximum,
    ) {
        return fail(StoreLeaseFailure::Configuration);
    }
    if let Some(step) = begin(history) {
        return step;
    }
    if history.len() == 1 {
        return match owner_kind {
            StoreLeaseOwnerKind::Request => Step::Perform(
                Statement::ReadBuildRequest { request_id: owner_id.clone() },
            ),
            StoreLeaseOwnerKind::Session => Step::Perform(
                Statement::HoldSession { session_id: owner_id.clone() },
            ),
        };
    }
    let refusal = match owner_kind {
        StoreLeaseOwnerKind::Request => refused_request(&history[1], maximum),
        StoreLeaseOwnerKind::Session => refused_session(&history[1]),
    };
    if let Some(failure) = refusal {
        return fail(failure);
    }
    if history.len() == 2 {
        return Step::Perform(
            Statement::InsertLease {
                lease_id: lease_id.clone(),
                owner_kind: owner_kind.as_str(),
                owner_id: owner_id.clone(),
                store_path: store_path.clone(),
                purpose: purpose.as_str(),
                expires_after_seconds: if purpose == StoreLeasePurpose::Output {
                    Some(3600)
                } else {
                    None
                },
                nar_size: if purpose.retained() {
                    Some(1)
                } else {
                    None
                },
            },
        );
    }
    match lease_in(&history[2], StoreLeaseFailure::Conflict, maximum) {
        Ok(lease) => commit(history, 3, lease),
        Err(failure) => fail(failure),
    }
}

/// Names and paths of leases to make, each only once.
pub open spec fn are_new_leases(
    leases: Seq<(String, String, u64)>,
    owner_id: Seq<char>,
    maximum_path_bytes: nat,
) -> bool {
    &&& forall|i: int|
        0 <= i < leases.len() ==> is_lease(
            (#[trigger] leases[i]).0@,
            owner_id,
            leases[i].1@,
            maximum_path_bytes,
        )
    &&& forall|i: int, j: int|
        0 <= i < j < leases.len() ==> (#[trigger] leases[i]).0@ != (#[trigger] leases[j]).0@
            && leases[i].1@ != leases[j].1@
}

fn new_leases_valid(
    leases: &Vec<(String, String, u64)>,
    owner_id: &str,
    maximum_path_bytes: usize,
) -> (valid: bool)
    ensures
        valid == are_new_leases(leases@, owner_id@, maximum_path_bytes as nat),
{
    let mut i: usize = 0;
    while i < leases.len()
        invariant
            i <= leases@.len(),
            are_new_leases(leases@.take(i as int), owner_id@, maximum_path_bytes as nat),
        decreases leases@.len() - i,
    {
        let ghost taken = leases@.take(i as int);
        if !lease_valid(
            leases[i].0.as_str(),
            owner_id,
            leases[i].1.as_str(),
            maximum_path_bytes,
        ) {
            return false;
        }
        let mut j: usize = 0;
        while j < i
            invariant
                j <= i,
                i < leases@.len(),
                forall|k: int|
                    0 <= k < j ==> (#[trigger] leases@[k]).0@ != leases@[i as int].0@
                        && leases@[k].1@ != leases@[i as int].1@,
            decreases i - j,
        {
            if text::same_text(leases[j].0.as_str(), leases[i].0.as_str()) || text::same_text(
                leases[j].1.as_str(),
                leases[i].1.as_str(),
            ) {
                assert(leases@[j as int].0@ == leases@[i as int].0@ || leases@[j as int].1@
                    == leases@[i as int].1@);
                return false;
            }
            j += 1;
        }
        proof {
            let next = leases@.take(i + 1);
            assert forall|k: int| 0 <= k < next.len() implies is_lease(
                (#[trigger] next[k]).0@,
                owner_id@,
                next[k].1@,
                maximum_path_bytes as nat,
            ) by {
                if k < i {
                    assert(taken[k] == next[k]);
                }
            }
            assert forall|k: int, l: int| 0 <= k < l < next.len() implies (#[trigger] next[k]).0@ != (
            #[trigger] next[l]).0@ && next[k].1@ != next[l].1@ by {
                assert(next[k] == leases@[k]);
                assert(next[l] == leases@[l]);
                if l < i {
                    assert(taken[k] == next[k]);
                    assert(taken[l] == next[l]);
                }
            }
        }
        i += 1;
    }
    assert(leases@.take(leases@.len() as int) =~= leases@);
    true
}

/// The size that a path is retained with, by the last row that names it.
pub open spec fn retained_size(sizes: Seq<(String, i64)>, store_path: Seq<char>) -> Option<i64>
    decreases sizes.len(),
{
    if sizes.len() == 0 {
        None
    } else if sizes.last().0@ == store_path {
        Some(sizes.last().1)
    } else {
        retained_size(sizes.drop_last(), store_path)
    }
}

fn find_size(sizes: &Vec<(String, i64)>, store_path: &str) -> (found: Option<i64>)
    ensures
        found == retained_size(sizes@, store_path@),
{
    let mut i: usize = sizes.len();
    assert(sizes@.take(i as int) =~= sizes@);
    while i > 0
        invariant
            i <= sizes@.len(),
            retained_size(sizes@, store_path@) == retained_size(
                sizes@.take(i as int),
                store_path@,
            ),
        decreases i,
    {
        assert(sizes@.take(i as int).last() == sizes@[i - 1]);
        assert(sizes@.take(i as int).drop_last() =~= sizes@.take(i - 1));
        if text::same_text(sizes[i - 1].0.as_str(), store_path) {
            return Some(sizes[i - 1].1);
        }
        i -= 1;
    }
    None
}

/// How many bytes leases add to those retained: a path that is retained adds none, but has to
/// have the same size.
pub open spec fn additional_bytes(
    leases: Seq<(String, String, u64)>,
    sizes: Seq<(String, i64)>,
) -> Result<u64, StoreLeaseFailure>
    decreases leases.len(),
{
    if leases.len() == 0 {
        Ok(0)
    } else {
        match additional_bytes(leases.drop_last(), sizes) {
            Ok(total) => match retained_size(sizes, leases.last().1@) {
                Some(size) => if size == leases.last().2 {
                    Ok(total)
                } else {
                    Err(StoreLeaseFailure::Conflict)
                },
                None => if total + leases.last().2 > u64::MAX {
                    Err(StoreLeaseFailure::Capacity)
                } else {
                    Ok((total + leases.last().2) as u64)
                },
            },
            Err(failure) => Err(failure),
        }
    }
}

proof fn additional_failure_stays(
    leases: Seq<(String, String, u64)>,
    sizes: Seq<(String, i64)>,
    count: nat,
)
    requires
        count <= leases.len(),
        additional_bytes(leases.take(count as int), sizes) is Err,
    ensures
        additional_bytes(leases, sizes) == additional_bytes(leases.take(count as int), sizes),
    decreases leases.len() - count,
{
    if count == leases.len() {
        assert(leases.take(count as int) =~= leases);
    } else {
        assert(leases.take((count + 1) as int).drop_last() =~= leases.take(count as int));
        additional_failure_stays(leases, sizes, count + 1);
    }
}

fn add_up(leases: &Vec<(String, String, u64)>, sizes: &Vec<(String, i64)>) -> (additional: Result<
    u64,
    StoreLeaseFailure,
>)
    requires
        forall|i: int| 0 <= i < leases@.len() ==> (#[trigger] leases@[i]).2 <= i64::MAX,
    ensures
        additional == additional_bytes(leases@, sizes@),
{
    let mut total: u64 = 0;
    let mut i: usize = 0;
    assert(leases@.take(0) =~= Seq::<(String, String, u64)>::empty());
    while i < leases.len()
        invariant
            i <= leases@.len(),
            forall|j: int| 0 <= j < leases@.len() ==> (#[trigger] leases@[j]).2 <= i64::MAX,
            additional_bytes(leases@.take(i as int), sizes@) == Ok::<u64, StoreLeaseFailure>(total),
        decreases leases@.len() - i,
    {
        let ghost next = leases@.take(i + 1);
        assert(next.drop_last() =~= leases@.take(i as int));
        assert(next.last() == leases@[i as int]);
        let nar_size: u64 = leases[i].2;
        match find_size(sizes, leases[i].1.as_str()) {
            Some(size) => {
                if size != nar_size as i64 {
                    proof {
                        additional_failure_stays(leases@, sizes@, (i + 1) as nat);
                    }
                    return Err(StoreLeaseFailure::Conflict);
                }
            },
            None => match total.checked_add(nar_size) {
                Some(sum) => {
                    total = sum;
                },
                None => {
                    proof {
                        additional_failure_stays(leases@, sizes@, (i + 1) as nat);
                    }
                    return Err(StoreLeaseFailure::Capacity);
                },
            },
        }
        i += 1;
    }
    assert(leases@.take(leases@.len() as int) =~= leases@);
    Ok(total)
}

/// A sum as the database gives it, as an unsigned number.
pub open spec fn unsigned(sum: i64) -> int {
    if sum < 0 {
        sum + 0x1_0000_0000_0000_0000
    } else {
        sum as int
    }
}

fn as_unsigned(sum: i64) -> (number: u64)
    ensures
        number == unsigned(sum),
{
    if sum < 0 {
        u64::MAX - (-(sum + 1)) as u64
    } else {
        sum as u64
    }
}

/// What retained leases are made with is complete and in bounds.
pub open spec fn retained_inputs_valid(
    database_url: Seq<char>,
    request_id: Seq<char>,
    maximum_retained_bytes: u64,
    purpose: StoreLeasePurpose,
    leases: Seq<(String, String, u64)>,
    limits: WorkerLimits,
) -> bool {
    &&& !text::is_blank(database_url)
    &&& purpose.is_retained()
    &&& maximum_retained_bytes > 0
    &&& database::is_component(request_id)
    &&& leases.len() <= limits.maximum_input_sources
    &&& are_new_leases(leases, request_id, limits.maximum_store_path_bytes as nat)
    &&& forall|i: int| 0 <= i < leases.len() ==> 0 < (#[trigger] leases[i]).2 <= i64::MAX
}

/// Whether there is room for leases: their bytes and those retained are within the limit.
pub open spec fn admission(
    retained: i64,
    maximum_retained_bytes: u64,
    leases: Seq<(String, String, u64)>,
    sizes: Seq<(String, i64)>,
) -> Result<(), StoreLeaseFailure> {
    match additional_bytes(leases, sizes) {
        Ok(additional) => if unsigned(retained) + additional > maximum_retained_bytes {
            Err(StoreLeaseFailure::Capacity)
        } else {
            Ok(())
        },
        Err(failure) => Err(failure),
    }
}

/// The paths of leases.
pub open spec fn paths_of(leases: Seq<(String, String, u64)>) -> Seq<String> {
    leases.map_values(|lease: (String, String, u64)| lease.1)
}

/// How many of the replies after a place answer one of so many insertions.
pub open spec fn answered(history: Seq<Reply>, place: int, count: nat) -> int {
    if history.len() - place < count {
        history.len() - place
    } else {
        count as int
    }
}

/// How leases for a request are inserted that were let in, one after the other.
pub open spec fn insertion_step(
    place: int,
    request_id: String,
    purpose: StoreLeasePurpose,
    leases: Seq<(String, String, u64)>,
    expires_after_seconds: Option<u64>,
    limits: WorkerLimits,
    history: Seq<Reply>,
) -> Step<Seq<StoreLeaseRecord>, StoreLeaseError> {
    let count = answered(history, place, leases.len());
    match replied_leases(
        history.subrange(place, place + count),
        StoreLeaseFailure::Conflict,
        limits.maximum_store_path_bytes as nat,
    ) {
        Ok(records) => if count < leases.len() {
            Step::Perform(
                Statement::InsertLease {
                    lease_id: leases[count].0,
                    owner_kind: StoreLeaseOwnerKind::Request.spec_name(),
                    owner_id: request_id,
                    store_path: leases[count].1,
                    purpose: purpose.spec_name(),
                    expires_after_seconds,
                    nar_size: if purpose.is_retained() {
                        Some(leases[count].2 as i64)
                    } else {
                        None
                    },
                },
            )
        } else {
            committed(history, place + leases.len(), records)
        },
        Err(failure) => failed(failure),
    }
}

fn insert_leases(
    place: usize,
    request_id: &String,
    purpose: StoreLeasePurpose,
    leases: &Vec<(String, String, u64)>,
    expires_after_seconds: Option<u64>,
    limits: &WorkerLimits,
    history: &Vec<Reply>,
) -> (step: Step<Vec<StoreLeaseRecord>, StoreLeaseError>)
    requires
        place <= history@.len(),
        purpose.is_retained() ==> forall|i: int|
            0 <= i < leases@.len() ==> (#[trigger] leases@[i]).2 <= i64::MAX,
    ensures
        database::listed(step) == insertion_step(
            place as int,
            *request_id,
            purpose,
            leases@,
            expires_after_seconds,
            *limits,
            history@,
        ),
{
    let wanted: usize = leases.len();
    let available: usize = history.len() - place;
    let count: usize = if available < wanted {
        available
    } else {
        wanted
    };
    let records = match leases_in(
        history,
        place,
        count,
        StoreLeaseFailure::Conflict,
        limits.maximum_store_path_bytes,
    ) {
        Ok(records) => records,
        Err(failure) => {
            return fail(failure);
        },
    };
    if count < wanted {
        return Step::Perform(
            Statement::InsertLease {
                lease_id: leases[count].0.clone(),
                owner_kind: StoreLeaseOwnerKind::Request.as_str(),
                owner_id: request_id.clone(),
                store_path: leases[count].1.clone(),
                purpose: purpose.as_str(),
                expires_after_seconds,
                nar_size: if purpose.retained() {
                    Some(leases[count].2 as i64)
                } else {
                    None
                },
            },
        );
    }
    commit(history, place + wanted, records)
}

/// How leases are made that retain paths for a request: the request is held, the lock on
/// admission is taken, and only where there is room are they inserted.
pub open spec fn retain_step(
    database_url: Seq<char>,
    request_id: String,
    maximum_retained_bytes: u64,
    purpose: StoreLeasePurpose,
    leases: Seq<(String, String, u64)>,
    limits: WorkerLimits,
    history: Seq<Reply>,
) -> Step<Seq<StoreLeaseRecord>, StoreLeaseError> {
    if !retained_inputs_valid(
        database_url,
        request_id@,
        maximum_retained_bytes,
        purpose,
        leases,
        limits,
    ) {
        failed(StoreLeaseFailure::Configuration)
    } else if let Some(step) = begun(history) {
        step
    } else if history.len() == 1 {
        Step::Perform(Statement::HoldBuildRequest { request_id })
    } else if let Some(failure) = request_refusal(
        history[1],
        limits.maximum_store_path_bytes as nat,
    ) {
        failed(failure)
    } else if history.len() == 2 {
        Step::Perform(Statement::LockRetainedInputs { key: RETAINED_INPUT_ADMISSION_LOCK_KEY })
    } else if history[2] !is Done {
        failed(StoreLeaseFailure::Query)
    } else if history.len() == 3 {
        Step::Perform(Statement::SumRetainedSizes)
    } else if history[3] !is Count {
        failed(StoreLeaseFailure::Query)
    } else if history.len() == 4 {
        Step::Perform(
            Statement::ReadRetainedSizes { store_paths: database::list_of(paths_of(leases)) },
        )
    } else {
        match history[4] {
            Reply::Sizes(sizes) => match admission(
                history[3]->Count_0,
                maximum_retained_bytes,
                leases,
                sizes@,
            ) {
                Ok(_) => insertion_step(5, request_id, purpose, leases, None, limits, history),
                Err(failure) => failed(failure),
            },
            _ => failed(StoreLeaseFailure::Query),
        }
    }
}

/// Makes leases that retain paths for a request.
pub fn create_request_retained_leases(
    database_url: &str,
    request_id: &String,
    maximum_retained_bytes: u64,
    purpose: StoreLeasePurpose,
    leases: &Vec<(String, String, u64)>,
    limits: &WorkerLimits,
    history: &Vec<Reply>,
) -> (step: Step<Vec<StoreLeaseRecord>, StoreLeaseError>)
    ensures
        database::listed(step) == retain_step(
            database_url@,
            *request_id,
            maximum_retained_bytes,
            purpose,
            leases@,
            *limits,
            history@,
        ),
{
    if text::blank(database_url) || !purpose.retained() || maximum_retained_bytes == 0
        || !component(request_id.as_str()) || leases.len() > limits.maximum_input_sources
        || !new_leases_valid(leases, request_id.as_str(), limits.maximum_store_path_bytes) {
        return fail(StoreLeaseFailure::Configuration);
    }
    let mut i: usize = 0;
    while i < leases.len()
        invariant
            i <= leases@.len(),
            forall|j: int| 0 <= j < i ==> 0 < (#[trigger] leases@[j]).2 <= i64::MAX,
        ensures
            i == leases@.len() || !(0 < leases@[i as int].2 <= i64::MAX),
        decreases leases@.len() - i,
    {
        if leases[i].2 == 0 || leases[i].2 > i64::MAX as u64 {
            break;
        }
        i += 1;
    }
    if i < leases.len() {
        return fail(StoreLeaseFailure::Configuration);
    }
    if let Some(step) = begin(history) {
        return step;
    }
    if history.len() == 1 {
        return Step::Perform(Statement::HoldBuildRequest { request_id: request_id.clone() });
    }
    if let Some(failure) = refused_request(&history[1], limits.maximum_store_path_bytes) {
        return fail(failure);
    }
    if history.len() == 2 {
        return Step::Perform(
            Statement::LockRetainedInputs { key: RETAINED_INPUT_ADMISSION_LOCK_KEY },
        );
    }
    match &history[2] {
        Reply::Done => {},
        _ => {
            return fail(StoreLeaseFailure::Query);
        },
    }
    if history.len() == 3 {
        return Step::Perform(Statement::SumRetainedSizes);
    }
    let retained: i64 = match &history[3] {
        Reply::Count(retained) => *retained,
        _ => {
            return fail(StoreLeaseFailure::Query);
        },
    };
    if history.len() == 4 {
        return read_sizes(leases);
    }
    let sizes = match &history[4] {
        Reply::Sizes(sizes) => sizes,
        _ => {
            return fail(StoreLeaseFailure::Query);
        },
    };
    let additional: u64 = match add_up(leases, sizes) {
        Ok(additional) => additional,
        Err(failure) => {
            return fail(failure);
        },
    };
    match as_unsigned(retained).checked_add(additional) {
        Some(total) => {
            if total > maximum_retained_bytes {
                return fail(StoreLeaseFailure::Capacity);
            }
        },
        None => {
            return fail(StoreLeaseFailure::Capacity);
        },
    }
    insert_leases(5, request_id, purpose, leases, None, limits, history)
}

/// Asks for the sizes of the paths that leases are on.
fn read_sizes(leases: &Vec<(String, String, u64)>) -> (step: Step<
    Vec<StoreLeaseRecord>,
    StoreLeaseError,
>)
    ensures
        database::listed(step) == Step::<Seq<StoreLeaseRecord>, StoreLeaseError>::Perform(
            Statement::ReadRetainedSizes { store_paths: database::list_of(paths_of(leases@)) },
        ),
{
    let mut store_paths: Vec<String> = Vec::new();
    let mut i: usize = 0;
    while i < leases.len()
        invariant
            i <= leases@.len(),
            store_paths@.len() == i,
            forall|j: int| 0 <= j < i ==> #[trigger] store_paths@[j] == leases@[j].1,
        decreases leases@.len() - i,
    {
        store_paths.push(leases[i].1.clone());
        i += 1;
    }
    assert(store_paths@ =~= paths_of(leases@));
    Step::Perform(Statement::ReadRetainedSizes { store_paths })
}

/// A step towards the first record of a list.
pub open spec fn first_of(step: Step<Seq<StoreLeaseRecord>, StoreLeaseError>) -> Step<
    StoreLeaseRecord,
    StoreLeaseError,
> {
    match step {
        Step::Perform(statement) => Step::Perform(statement),
        Step::Finish(Ok(records)) => if records.len() > 0 {
            Step::Finish(Ok(records[0]))
        } else {
            failed(StoreLeaseFailure::Query)
        },
        Step::Finish(Err(error)) => Step::Finish(Err(error)),
    }
}

/// How one lease that retains a path for a request is made.
pub open spec fn retained_step(
    database_url: Seq<char>,
    lease_id: String,
    request_id: String,
    store_path: String,
    purpose: StoreLeasePurpose,
    nar_size: u64,
    maximum_retained_bytes: u64,
    limits: WorkerLimits,
    history: Seq<Reply>,
) -> Step<StoreLeaseRecord, StoreLeaseError> {
    if !purpose.is_retained() {
        failed(StoreLeaseFailure::Configuration)
    } else {
        first_of(
            retain_step(
                database_url,
                request_id,
                maximum_retained_bytes,
                purpose,
                seq![(lease_id, store_path, nar_size)],
                limits,
                history,
            ),
        )
    }
}

/// Makes one lease that retains a path for a request.
pub fn create_request_retained_lease(
    database_url: &str,
    lease_id: &String,
    request_id: &String,
    store_path: &String,
    purpose: StoreLeasePurpose,
    nar_size: u64,
    maximum_retained_bytes: u64,
    limits: &WorkerLimits,
    history: &Vec<Reply>,
) -> (step: Step<StoreLeaseRecord, StoreLeaseError>)
    ensures
        database::settled(step) == retained_step(
            database_url@,
            *lease_id,
            *request_id,
            *store_path,
            purpose,
            nar_size,
            maximum_retained_bytes,
            *limits,
            history@,
        ),
{
    if !purpose.retained() {
        return fail(StoreLeaseFailure::Configuration);
    }
    let mut leases: Vec<(String, String, u64)> = Vec::new();
    leases.push((lease_id.clone(), store_path.clone(), nar_size));
    assert(leases@ =~= seq![(*lease_id, *store_path, nar_size)]);
    match create_request_retained_leases(
        database_url,
        request_id,
        maximum_retained_bytes,
        purpose,
        &leases,
        limits,
        history,
    ) {
        Step::Perform(statement) => Step::Perform(statement),
        Step::Finish(Ok(mut records)) => {
            if records.len() > 0 {
                Step::Finish(Ok(records.remove(0)))
            } else {
                fail(StoreLeaseFailure::Query)
            }
        },
        Step::Finish(Err(error)) => Step::Finish(Err(error)),
    }
}

/// Leases that count one byte each.
pub open spec fn counted(leases: Seq<(String, String)>) -> Seq<(String, String, u64)> {
    leases.map_values(|lease: (String, String)| (lease.0, lease.1, 1u64))
}

fn count_leases(leases: &Vec<(String, String)>) -> (sized: Vec<(String, String, u64)>)
    ensures
        sized@ == counted(leases@),
{
    let mut sized: Vec<(String, String, u64)> = Vec::new();
    let mut i: usize = 0;
    while i < leases.len()
        invariant
            i <= leases@.len(),
            sized@ == counted(leases@.take(i as int)),
        decreases leases@.len() - i,
    {
        sized.push((leases[i].0.clone(), leases[i].1.clone(), 1));
        assert(counted(leases@.take(i + 1)) =~= counted(leases@.take(i as int)).push(
            (leases@[i as int].0, leases@[i as int].1, 1u64),
        ));
        i += 1;
    }
    assert(leases@.take(leases@.len() as int) =~= leases@);
    sized
}

/// How leases on the inputs of a request are made; there is nothing to do for none.
pub open spec fn input_step(
    database_url: Seq<char>,
    request_id: String,
    maximum_retained_bytes: u64,
    leases: Seq<(String, String, u64)>,
    limits: WorkerLimits,
    history: Seq<Reply>,
) -> Step<Seq<StoreLeaseRecord>, StoreLeaseError> {
    if leases.len() == 0 {
        Step::Finish(Ok(Seq::empty()))
    } else {
        retain_step(
            database_url,
            request_id,
            maximum_retained_bytes,
            StoreLeasePurpose::Input,
            leases,
            limits,
            history,
        )
    }
}

/// Makes leases on the inputs of a request without counting their bytes.
pub fn create_request_input_leases(
    database_url: &str,
    request_id: &String,
    leases: &Vec<(String, String)>,
    limits: &WorkerLimits,
    history: &Vec<Reply>,
) -> (step: Step<Vec<StoreLeaseRecord>, StoreLeaseError>)
    ensures
        database::listed(step) == input_step(
            database_url@,
            *request_id,
            u64::MAX,
            counted(leases@),
            *limits,
            history@,
        ),
{
    let sized = count_leases(leases);
    create_request_input_leases_with_limit(
        database_url,
        request_id,
        u64::MAX,
        &sized,
        limits,
        history,
    )
}

/// Makes leases on the inputs of a request where there is room for their bytes.
pub fn create_request_input_leases_with_limit(
    database_url: &str,
    request_id: &String,
    maximum_retained_bytes: u64,
    leases: &Vec<(String, String, u64)>,
    limits: &WorkerLimits,
    history: &Vec<Reply>,
) -> (step: Step<Vec<StoreLeaseRecord>, StoreLeaseError>)
    ensures
        database::listed(step) == input_step(
            database_url@,
            *request_id,
            maximum_retained_bytes,
            leases@,
            *limits,
            history@,
        ),
{
    if leases.len() == 0 {
        let none: Vec<StoreLeaseRecord> = Vec::new();
        assert(none@ =~= Seq::<StoreLeaseRecord>::empty());
        return Step::Finish(Ok(none));
    }
    create_request_retained_leases(
        database_url,
        request_id,
        maximum_retained_bytes,
        StoreLeasePurpose::Input,
        leases,
        limits,
        history,
    )
}

/// No lease that retains a path is inserted unless the bytes retained before, with those that the
/// leases add, are within the limit.
pub proof fn retained_bytes_stay_bounded(
    database_url: Seq<char>,
    request_id: String,
    maximum_retained_bytes: u64,
    purpose: StoreLeasePurpose,
    leases: Seq<(String, String, u64)>,
    limits: WorkerLimits,
    history: Seq<Reply>,
)
    requires
        retain_step(
            database_url,
            request_id,
            maximum_retained_bytes,
            purpose,
            leases,
            limits,
            history,
        ) matches Step::Perform(Statement::InsertLease { .. }),
    ensures
        history[3] matches Reply::Count(retained) && history[4] matches Reply::Sizes(sizes)
            && additional_bytes(leases, sizes@) matches Ok(additional) && unsigned(retained)
            + additional <= maximum_retained_bytes,
{
}

/// Outputs are retained for whole seconds, from a minute to a day.
pub open spec fn is_retention(retention: Span) -> bool {
    retention.nanoseconds == 0 && 60 <= retention.seconds <= 86_400
}

fn retention_valid(retention: &Span) -> (valid: bool)
    ensures
        valid == is_retention(*retention),
{
    retention.nanoseconds == 0 && 60 <= retention.seconds && retention.seconds <= 86_400
}

/// What leases on outputs are made with is complete and in bounds.
pub open spec fn output_inputs_valid(
    database_url: Seq<char>,
    request_id: Seq<char>,
    leases: Seq<(String, String)>,
    limits: WorkerLimits,
) -> bool {
    &&& !text::is_blank(database_url)
    &&& database::is_component(request_id)
    &&& leases.len() <= limits.maximum_outputs
    &&& are_new_leases(counted(leases), request_id, limits.maximum_store_path_bytes as nat)
}

/// How leases on the outputs of a request are made.
pub open spec fn output_step(
    database_url: Seq<char>,
    request_id: String,
    retention: Span,
    leases: Seq<(String, String)>,
    limits: WorkerLimits,
    history: Seq<Reply>,
) -> Step<Seq<StoreLeaseRecord>, StoreLeaseError> {
    if !is_retention(retention) {
        failed(StoreLeaseFailure::Configuration)
    } else if leases.len() == 0 {
        Step::Finish(Ok(Seq::empty()))
    } else if !output_inputs_valid(database_url, request_id@, leases, limits) {
        failed(StoreLeaseFailure::Configuration)
    } else if let Some(step) = begun(history) {
        step
    } else if history.len() == 1 {
        Step::Perform(Statement::HoldBuildRequest { request_id })
    } else if let Some(failure) = request_refusal(
        history[1],
        limits.maximum_store_path_bytes as nat,
    ) {
        failed(failure)
    } else {
        insertion_step(
            2,
            request_id,
            StoreLeasePurpose::Output,
            counted(leases),
            Some(retention.seconds),
            limits,
            history,
        )
    }
}

/// Makes leases on the outputs of a request.
pub fn create_request_output_leases(
    database_url: &str,
    request_id: &String,
    retention: &Span,
    leases: &Vec<(String, String)>,
    limits: &WorkerLimits,
    history: &Vec<Reply>,
) -> (step: Step<Vec<StoreLeaseRecord>, StoreLeaseError>)
    ensures
        database::listed(step) == output_step(
            database_url@,
            *request_id,
            *retention,
            leases@,
            *limits,
            history@,
        ),
{
    if !retention_valid(retention) {
        return fail(StoreLeaseFailure::Configuration);
    }
    if leases.len() == 0 {
        let none: Vec<StoreLeaseRecord> = Vec::new();
        assert(none@ =~= Seq::<StoreLeaseRecord>::empty());
        return Step::Finish(Ok(none));
    }
    let sized = count_leases(leases);
    if text::blank(database_url) || !component(request_id.as_str()) || leases.len()
        > limits.maximum_outputs || !new_leases_valid(
        &sized,
        request_id.as_str(),
        limits.maximum_store_path_bytes,
    ) {
        return fail(StoreLeaseFailure::Configuration);
    }
    if let Some(step) = begin(history) {
        return step;
    }
    if history.len() == 1 {
        return Step::Perform(Statement::HoldBuildRequest { request_id: request_id.clone() });
    }
    if let Some(failure) = refused_request(&history[1], limits.maximum_store_path_bytes) {
        return fail(failure);
    }
    insert_leases(
        2,
        request_id,
        StoreLeasePurpose::Output,
        &sized,
        Some(retention.seconds),
        limits,
        history,
    )
}

/// Recorded leases are those that were asked for, and all hold.
pub open spec fn are_expected(
    records: Seq<StoreLeaseRecord>,
    leases: Seq<(String, String)>,
) -> bool {
    &&& records.len() == leases.len()
    &&& forall|i: int|
        0 <= i < records.len() ==> {
            &&& (#[trigger] records[i]).lease_id@ == leases[i].0@
            &&& records[i].store_path@ == leases[i].1@
            &&& records[i].state == StoreLeaseState::Active
        }
}

fn expected_leases(records: &Vec<StoreLeaseRecord>, leases: &Vec<(String, String)>) -> (same: bool)
    ensures
        same == are_expected(records@, leases@),
{
    if records.len() != leases.len() {
        return false;
    }
    let mut i: usize = 0;
    while i < records.len()
        invariant
            i <= records@.len(),
            records@.len() == leases@.len(),
            forall|j: int|
                0 <= j < i ==> {
                    &&& (#[trigger] records@[j]).lease_id@ == leases@[j].0@
                    &&& records@[j].store_path@ == leases@[j].1@
                    &&& records@[j].state == StoreLeaseState::Active
                },
        decreases records@.len() - i,
    {
        if !text::same_text(records[i].lease_id.as_str(), leases[i].0.as_str())
            || !text::same_text(records[i].store_path.as_str(), leases[i].1.as_str())
            || records[i].state != StoreLeaseState::Active {
            assert(!(records@[i as int].lease_id@ == leases@[i as int].0@
                && records@[i as int].store_path@ == leases@[i as int].1@
                && records@[i as int].state == StoreLeaseState::Active));
            return false;
        }
        i += 1;
    }
    true
}

/// How leases on the outputs of a request are ensured: those that are there have to be the ones
/// asked for, and where there are none they are made.
pub open spec fn ensure_step(
    database_url: Seq<char>,
    request_id: String,
    retention: Span,
    leases: Seq<(String, String)>,
    limits: WorkerLimits,
    history: Seq<Reply>,
) -> Step<Seq<StoreLeaseRecord>, StoreLeaseError> {
    if !is_retention(retention) {
        failed(StoreLeaseFailure::Configuration)
    } else if leases.len() == 0 {
        Step::Finish(Ok(Seq::empty()))
    } else if !output_inputs_valid(database_url, request_id@, leases, limits) {
        failed(StoreLeaseFailure::Configuration)
    } else if let Some(step) = begun(history) {
        step
    } else if history.len() == 1 {
        Step::Perform(Statement::FindBuildRequest { request_id })
    } else {
        match history[1] {
            Reply::Found(false) => failed(StoreLeaseFailure::Missing),
            Reply::Found(true) => if history.len() == 2 {
                Step::Perform(Statement::LockRequestOutputLeases { request_id })
            } else {
                match history[2] {
                    Reply::Leases(rows) => if rows@.len() > 0 {
                        match leases_of(rows@, limits.maximum_store_path_bytes as nat) {
                            Some(records) => if are_expected(records, leases) {
                                committed(history, 3, records)
                            } else {
                                failed(StoreLeaseFailure::Conflict)
                            },
                            None => failed(StoreLeaseFailure::Query),
                        }
                    } else {
                        insertion_step(
                            3,
                            request_id,
                            StoreLeasePurpose::Output,
                            counted(leases),
                            Some(retention.seconds),
                            limits,
                            history,
                        )
                    },
                    _ => failed(StoreLeaseFailure::Query),
                }
            },
            _ => failed(StoreLeaseFailure::Query),
        }
    }
}

/// Makes leases on the outputs of a request, or finds them as they were made before.
pub fn ensure_request_output_leases(
    database_url: &str,
    request_id: &String,
    retention: &Span,
    leases: &Vec<(String, String)>,
    limits: &WorkerLimits,
    history: &Vec<Reply>,
) -> (step: Step<Vec<StoreLeaseRecord>, StoreLeaseError>)
    ensures
        database::listed(step) == ensure_step(
            database_url@,
            *request_id,
            *retention,
            leases@,
            *limits,
            history@,
        ),
{
    if !retention_valid(retention) {
        return fail(StoreLeaseFailure::Configuration);
    }
    if leases.len() == 0 {
        let none: Vec<StoreLeaseRecord> = Vec::new();
        assert(none@ =~= Seq::<StoreLeaseRecord>::empty());
        return Step::Finish(Ok(none));
    }
    let sized = count_leases(leases);
    if text::blank(database_url) || !component(request_id.as_str()) || leases.len()
        > limits.maximum_outputs || !new_leases_valid(
        &sized,
        request_id.as_str(),
        limits.maximum_store_path_bytes,
    ) {
        return fail(StoreLeaseFailure::Configuration);
    }
    if let Some(step) = begin(history) {
        return step;
    }
    if history.len() == 1 {
        return Step::Perform(Statement::FindBuildRequest { request_id: request_id.clone() });
    }
    match &history[1] {
        Reply::Found(found) => {
            if !*found {
                return fail(StoreLeaseFailure::Missing);
            }
        },
        _ => {
            return fail(StoreLeaseFailure::Query);
        },
    }
    if history.len() == 2 {
        return Step::Perform(
            Statement::LockRequestOutputLeases { request_id: request_id.clone() },
        );
    }
    let rows = match &history[2] {
        Reply::Leases(rows) => rows,
        _ => {
            return fail(StoreLeaseFailure::Query);
        },
    };
    if rows.len() > 0 {
        return match decode_leases(rows, limits.maximum_store_path_bytes) {
            Some(records) => {
                if expected_leases(&records, leases) {
                    commit(history, 3, records)
                } else {
                    fail(StoreLeaseFailure::Conflict)
                }
            },
            None => fail(StoreLeaseFailure::Query),
        };
    }
    insert_leases(
        3,
        request_id,
        StoreLeasePurpose::Output,
        &sized,
        Some(retention.seconds),
        limits,
        history,
    )
}

/// Leases that were released together.
#[derive(Clone, Debug)]
pub struct ReleasedRequestLeases {
    pub leases: Vec<StoreLeaseRecord>,
}

/// Leases that a request holds while it is built: one on its derivation, and others on inputs and
/// outputs, all of them active.
pub open spec fn are_held(leases: Seq<StoreLeaseRecord>, request_id: Seq<char>) -> bool {
    &&& leases.filter(
        |lease: StoreLeaseRecord| lease.purpose == StoreLeasePurpose::Derivation,
    ).len() == 1
    &&& forall|i: int| 0 <= i < leases.len() ==> is_held(#[trigger] leases[i], request_id)
}

pub open spec fn is_held(lease: StoreLeaseRecord, request_id: Seq<char>) -> bool {
    &&& lease.owner_kind == StoreLeaseOwnerKind::Request
    &&& lease.owner_id@ == request_id
    &&& lease.state == StoreLeaseState::Active
    &&& lease.purpose != StoreLeasePurpose::Transfer
}

fn held_leases(leases: &Vec<StoreLeaseRecord>, request_id: &str) -> (held: bool)
    ensures
        held == are_held(leases@, request_id@),
{
    let ghost derivation = |lease: StoreLeaseRecord|
        lease.purpose == StoreLeasePurpose::Derivation;
    let mut derivations: usize = 0;
    let mut i: usize = 0;
    proof {
        assert(leases@.take(0) =~= Seq::<StoreLeaseRecord>::empty());
        reveal(Seq::filter);
    }
    while i < leases.len()
        invariant
            i <= leases@.len(),
            derivation == (|lease: StoreLeaseRecord|
                lease.purpose == StoreLeasePurpose::Derivation),
            derivations <= i,
            derivations == leases@.take(i as int).filter(derivation).len(),
            forall|j: int| 0 <= j < i ==> is_held(#[trigger] leases@[j], request_id@),
        decreases leases@.len() - i,
    {
        let lease = &leases[i];
        if lease.owner_kind != StoreLeaseOwnerKind::Request || !text::same_text(
            lease.owner_id.as_str(),
            request_id,
        ) || lease.state != StoreLeaseState::Active || lease.purpose
            == StoreLeasePurpose::Transfer {
            assert(!is_held(leases@[i as int], request_id@));
            return false;
        }
        proof {
            assert(leases@.take(i + 1).drop_last() =~= leases@.take(i as int));
            assert(leases@.take(i + 1).last() == leases@[i as int]);
            reveal(Seq::filter);
        }
        if lease.purpose == StoreLeasePurpose::Derivation {
            derivations += 1;
        }
        i += 1;
    }
    assert(leases@.take(leases@.len() as int) =~= leases@);
    derivations == 1
}

/// The leases on what the build reads.
pub open spec fn retained_of(leases: Seq<StoreLeaseRecord>) -> Seq<StoreLeaseRecord> {
    leases.filter(|lease: StoreLeaseRecord| lease.purpose.is_retained())
}

/// A lease is another one after its release.
pub open spec fn is_release_of(released: StoreLeaseRecord, locked: StoreLeaseRecord) -> bool {
    &&& released.lease_id@ == locked.lease_id@
    &&& released.owner_kind == locked.owner_kind
    &&& released.owner_id@ == locked.owner_id@
    &&& released.store_path@ == locked.store_path@
    &&& released.purpose == locked.purpose
    &&& released.state == StoreLeaseState::Released
    &&& released.created_at == locked.created_at
}

/// Released leases are the locked ones on what the build reads, all released at one moment.
pub open spec fn are_releases_of(
    released: Seq<StoreLeaseRecord>,
    locked: Seq<StoreLeaseRecord>,
) -> bool {
    &&& released.len() == retained_of(locked).len()
    &&& forall|i: int|
        0 <= i < released.len() ==> is_release_of(#[trigger] released[i], retained_of(locked)[i])
            && released[i].released_at == released[0].released_at
}

fn release_of(released: &StoreLeaseRecord, locked: &StoreLeaseRecord) -> (same: bool)
    ensures
        same == is_release_of(*released, *locked),
{
    text::same_text(released.lease_id.as_str(), locked.lease_id.as_str()) && released.owner_kind
        == locked.owner_kind && text::same_text(
        released.owner_id.as_str(),
        locked.owner_id.as_str(),
    ) && text::same_text(released.store_path.as_str(), locked.store_path.as_str())
        && released.purpose == locked.purpose && released.state == StoreLeaseState::Released
        && released.created_at == locked.created_at
}

fn same_moments(left: Option<Moment>, right: Option<Moment>) -> (same: bool)
    ensures
        same == (left == right),
{
    match (left, right) {
        (Some(left), Some(right)) => left == right,
        (None, None) => true,
        _ => false,
    }
}

fn releases_of(released: &Vec<StoreLeaseRecord>, locked: &Vec<StoreLeaseRecord>) -> (same: bool)
    ensures
        same == are_releases_of(released@, locked@),
{
    let ghost retained = |lease: StoreLeaseRecord| lease.purpose.is_retained();
    let mut matched: usize = 0;
    let mut i: usize = 0;
    proof {
        assert(locked@.take(0) =~= Seq::<StoreLeaseRecord>::empty());
        reveal(Seq::filter);
    }
    while i < locked.len()
        invariant
            i <= locked@.len(),
            retained == (|lease: StoreLeaseRecord| lease.purpose.is_retained()),
            matched == locked@.take(i as int).filter(retained).len(),
            matched <= released@.len(),
            forall|j: int|
                0 <= j < matched ==> is_release_of(
                    #[trigger] released@[j],
                    locked@.take(i as int).filter(retained)[j],
                ) && released@[j].released_at == released@[0].released_at,
        decreases locked@.len() - i,
    {
        proof {
            assert(locked@.take(i + 1).drop_last() =~= locked@.take(i as int));
            assert(locked@.take(i + 1).last() == locked@[i as int]);
            reveal(Seq::filter);
            filter_grows(locked@, retained, (i + 1) as nat);
        }
        if locked[i].purpose.retained() {
            if matched >= released.len() {
                return false;
            }
            if !release_of(&released[matched], &locked[i]) || !same_moments(
                released[matched].released_at,
                released[0].released_at,
            ) {
                assert(locked@.take(i + 1).filter(retained)[matched as int] == locked@[i as int]);
                assert(retained_of(locked@)[matched as int] == locked@[i as int]);
                assert(!is_release_of(
                    released@[matched as int],
                    retained_of(locked@)[matched as int],
                ) || released@[matched as int].released_at != released@[0].released_at);
                return false;
            }
            matched += 1;
        }
        i += 1;
    }
    assert(locked@.take(locked@.len() as int) =~= locked@);
    matched == released.len()
}

/// What a filter keeps of a beginning, it keeps at the same places of the whole.
proof fn filter_grows(
    leases: Seq<StoreLeaseRecord>,
    kept: spec_fn(StoreLeaseRecord) -> bool,
    count: nat,
)
    requires
        count <= leases.len(),
    ensures
        leases.take(count as int).filter(kept).len() <= leases.filter(kept).len(),
        forall|i: int|
            0 <= i < leases.take(count as int).filter(kept).len() ==> (#[trigger] leases.take(
                count as int,
            ).filter(kept)[i]) == leases.filter(kept)[i],
    decreases leases.len() - count,
{
    reveal(Seq::filter);
    if count == leases.len() {
        assert(leases.take(count as int) =~= leases);
    } else {
        filter_grows(leases, kept, count + 1);
        assert(leases.take((count + 1) as int).drop_last() =~= leases.take(count as int));
        assert forall|i: int| 0 <= i < leases.take(count as int).filter(kept).len() implies (
        #[trigger] leases.take(count as int).filter(kept)[i]) == leases.filter(kept)[i] by {
            assert(leases.take((count + 1) as int).filter(kept)[i] == leases.filter(kept)[i]);
        }
    }
}

/// A record put among others in the order of their names, after those with the same name.
pub open spec fn inserted(sorted: Seq<StoreLeaseRecord>, lease: StoreLeaseRecord) -> Seq<
    StoreLeaseRecord,
>
    decreases sorted.len(),
{
    if sorted.len() > 0 && text::precedes(lease.lease_id@, sorted.last().lease_id@) {
        inserted(sorted.drop_last(), lease).push(sorted.last())
    } else {
        sorted.push(lease)
    }
}

/// Records in the order of their names.
pub open spec fn ordered(leases: Seq<StoreLeaseRecord>) -> Seq<StoreLeaseRecord>
    decreases leases.len(),
{
    if leases.len() == 0 {
        Seq::empty()
    } else {
        inserted(ordered(leases.drop_last()), leases.last())
    }
}

proof fn inserted_at(sorted: Seq<StoreLeaseRecord>, lease: StoreLeaseRecord, place: int)
    requires
        0 <= place <= sorted.len(),
        forall|i: int|
            place <= i < sorted.len() ==> text::precedes(
                lease.lease_id@,
                (#[trigger] sorted[i]).lease_id@,
            ),
        place > 0 ==> !text::precedes(lease.lease_id@, sorted[place - 1].lease_id@),
    ensures
        inserted(sorted, lease) == sorted.insert(place, lease),
    decreases sorted.len(),
{
    if place == sorted.len() {
        assert(sorted.insert(place, lease) =~= sorted.push(lease));
    } else {
        let earlier = sorted.drop_last();
        inserted_at(earlier, lease, place);
        assert(earlier.insert(place, lease).push(sorted.last()) =~= sorted.insert(place, lease));
    }
}

/// Brings records into the order of their names.
fn order_leases(leases: Vec<StoreLeaseRecord>) -> (sorted: Vec<StoreLeaseRecord>)
    ensures
        sorted@ == ordered(leases@),
{
    let ghost given = leases@;
    let mut rest: Vec<StoreLeaseRecord> = leases;
    let mut sorted: Vec<StoreLeaseRecord> = Vec::new();
    let ghost mut count: nat = 0;
    proof {
        assert(given.take(0) =~= Seq::<StoreLeaseRecord>::empty());
        assert(given.skip(0) =~= given);
        assert(sorted@ =~= Seq::<StoreLeaseRecord>::empty());
    }
    while rest.len() > 0
        invariant
            count <= given.len(),
            rest@ == given.skip(count as int),
            sorted@ == ordered(given.take(count as int)),
        decreases rest@.len(),
    {
        let lease = rest.remove(0);
        let mut place: usize = sorted.len();
        while place > 0 && text::before(
            lease.lease_id.as_str(),
            sorted[place - 1].lease_id.as_str(),
        )
            invariant
                place <= sorted@.len(),
                forall|i: int|
                    place <= i < sorted@.len() ==> text::precedes(
                        lease.lease_id@,
                        (#[trigger] sorted@[i]).lease_id@,
                    ),
            decreases place,
        {
            place -= 1;
        }
        proof {
            inserted_at(sorted@, lease, place as int);
            assert(given.take((count + 1) as int).drop_last() =~= given.take(count as int));
            assert(given.take((count + 1) as int).last() == lease);
            assert(given.skip(count as int).remove(0) =~= given.skip((count + 1) as int));
        }
        sorted.insert(place, lease);
        proof {
            count = count + 1;
        }
    }
    assert(given.take(count as int) =~= given);
    sorted
}

/// A step towards released leases, by what their list holds.
pub open spec fn released_list(step: Step<ReleasedRequestLeases, StoreLeaseError>) -> Step<
    Seq<StoreLeaseRecord>,
    StoreLeaseError,
> {
    match step {
        Step::Perform(statement) => Step::Perform(statement),
        Step::Finish(Ok(released)) => Step::Finish(Ok(released.leases@)),
        Step::Finish(Err(error)) => Step::Finish(Err(error)),
    }
}

/// The leases of a request that are locked for their release.
pub open spec fn locked_leases(
    reply: Reply,
    request_id: Seq<char>,
    maximum_path_bytes: nat,
) -> Option<
    Seq<StoreLeaseRecord>,
> {
    match reply {
        Reply::Leases(rows) => match leases_of(rows@, maximum_path_bytes) {
            Some(leases) => if are_held(leases, request_id) {
                Some(leases)
            } else {
                None
            },
            None => None,
        },
        _ => None,
    }
}

fn lock_active_request_leases(reply: &Reply, request_id: &str, maximum_path_bytes: usize) -> (locked:
    Option<Vec<StoreLeaseRecord>>)
    ensures
        match locked {
            Some(leases) => locked_leases(*reply, request_id@, maximum_path_bytes as nat) == Some(
                leases@,
            ),
            None => locked_leases(*reply, request_id@, maximum_path_bytes as nat) is None,
        },
{
    match reply {
        Reply::Leases(rows) => match decode_leases(rows, maximum_path_bytes) {
            Some(leases) => {
                if held_leases(&leases, request_id) {
                    Some(leases)
                } else {
                    None
                }
            },
            None => None,
        },
        _ => None,
    }
}

/// The leases that were released, in the order of their names, where they are the locked ones.
pub open spec fn released_leases(
    reply: Reply,
    locked: Seq<StoreLeaseRecord>,
    maximum_path_bytes: nat,
) -> Option<Seq<StoreLeaseRecord>> {
    match reply {
        Reply::Leases(rows) => match leases_of(rows@, maximum_path_bytes) {
            Some(leases) => if are_releases_of(ordered(leases), locked) {
                Some(ordered(leases))
            } else {
                None
            },
            None => None,
        },
        _ => None,
    }
}

fn release_locked_request_leases(
    reply: &Reply,
    locked: &Vec<StoreLeaseRecord>,
    maximum_path_bytes: usize,
) -> (released: Option<Vec<StoreLeaseRecord>>)
    ensures
        match released {
            Some(leases) => released_leases(*reply, locked@, maximum_path_bytes as nat) == Some(
                leases@,
            ),
            None => released_leases(*reply, locked@, maximum_path_bytes as nat) is None,
        },
{
    match reply {
        Reply::Leases(rows) => match decode_leases(rows, maximum_path_bytes) {
            Some(leases) => {
                let sorted = order_leases(leases);
                if releases_of(&sorted, locked) {
                    Some(sorted)
                } else {
                    None
                }
            },
            None => None,
        },
        _ => None,
    }
}

/// What an attachment is in for the release of leases: attached, in another state, or not to be
/// had.
pub open spec fn attachment_refusal(reply: Reply) -> Option<StoreLeaseFailure> {
    match reply {
        Reply::Attachment(None) => Some(StoreLeaseFailure::Missing),
        Reply::Attachment(Some(row)) => match attachments::attachment_of(row) {
            Some(attachment) => if attachment.state == RequestAttachmentState::Attached {
                None
            } else {
                Some(StoreLeaseFailure::InvalidState)
            },
            None => Some(StoreLeaseFailure::Query),
        },
        _ => Some(StoreLeaseFailure::Query),
    }
}

/// A reply tells that an attachment is detached now.
pub open spec fn is_detached(reply: Reply) -> bool {
    reply matches Reply::Attachment(Some(row)) && attachments::attachment_of(row) matches Some(
        attachment,
    ) && attachment.state == RequestAttachmentState::Detached
}

/// How a request is detached and its leases released: both rows and all leases are locked first,
/// and leases on outputs stay.
pub open spec fn detach_step(
    database_url: Seq<char>,
    session_id: String,
    request_id: String,
    limits: WorkerLimits,
    history: Seq<Reply>,
) -> Step<Seq<StoreLeaseRecord>, StoreLeaseError> {
    let maximum = limits.maximum_store_path_bytes as nat;
    if !attachments::inputs_valid(database_url, session_id@, request_id@) {
        failed(StoreLeaseFailure::Configuration)
    } else if let Some(step) = begun(history) {
        step
    } else if history.len() == 1 {
        Step::Perform(Statement::LockBuildRequest { request_id })
    } else if let Some(failure) = request_refusal(history[1], maximum) {
        failed(failure)
    } else if history.len() == 2 {
        Step::Perform(Statement::LockAttachment { session_id, request_id })
    } else if let Some(failure) = attachment_refusal(history[2]) {
        failed(failure)
    } else if history.len() == 3 {
        Step::Perform(Statement::LockRequestLeases { request_id })
    } else {
        match locked_leases(history[3], request_id@, maximum) {
            Some(locked) => if history.len() == 4 {
                Step::Perform(Statement::DetachAttached { session_id, request_id })
            } else if !is_detached(history[4]) {
                failed(StoreLeaseFailure::Query)
            } else if history.len() == 5 {
                Step::Perform(Statement::ReleaseRequestInputLeases { request_id })
            } else {
                match released_leases(history[5], locked, maximum) {
                    Some(released) => committed(history, 6, released),
                    None => failed(StoreLeaseFailure::Query),
                }
            },
            None => failed(StoreLeaseFailure::Query),
        }
    }
}

/// Detaches a request from a session and releases the leases on what its build reads.
pub fn detach_request_and_release_leases(
    database_url: &str,
    session_id: &String,
    request_id: &String,
    limits: &WorkerLimits,
    history: &Vec<Reply>,
) -> (step: Step<ReleasedRequestLeases, StoreLeaseError>)
    ensures
        released_list(step) == detach_step(
            database_url@,
            *session_id,
            *request_id,
            *limits,
            history@,
        ),
{
    let maximum: usize = limits.maximum_store_path_bytes;
    if text::blank(database_url) || !component(session_id.as_str()) || !component(
        request_id.as_str(),
    ) {
        return fail(StoreLeaseFailure::Configuration);
    }
    if let Some(step) = begin(history) {
        return step;
    }
    if history.len() == 1 {
        return Step::Perform(Statement::LockBuildRequest { request_id: request_id.clone() });
    }
    if let Some(failure) = refused_request(&history[1], maximum) {
        return fail(failure);
    }
    if history.len() == 2 {
        return Step::Perform(
            Statement::LockAttachment {
                session_id: session_id.clone(),
                request_id: request_id.clone(),
            },
        );
    }
    match &history[2] {
        Reply::Attachment(None) => {
            return fail(StoreLeaseFailure::Missing);
        },
        Reply::Attachment(Some(row)) => match decode_request_attachment(row) {
            Ok(attachment) => {
                if attachment.state != RequestAttachmentState::Attached {
                    return fail(StoreLeaseFailure::InvalidState);
                }
            },
            Err(_) => {
                return fail(StoreLeaseFailure::Query);
            },
        },
        _ => {
            return fail(StoreLeaseFailure::Query);
        },
    }
    if history.len() == 3 {
        return Step::Perform(Statement::LockRequestLeases { request_id: request_id.clone() });
    }
    let locked = match lock_active_request_leases(&history[3], request_id.as_str(), maximum) {
        Some(locked) => locked,
        None => {
            return fail(StoreLeaseFailure::Query);
        },
    };
    if history.len() == 4 {
        return Step::Perform(
            Statement::DetachAttached {
                session_id: session_id.clone(),
                request_id: request_id.clone(),
            },
        );
    }
    match &history[4] {
        Reply::Attachment(Some(row)) => match decode_request_attachment(row) {
            Ok(attachment) => {
                if attachment.state != RequestAttachmentState::Detached {
                    return fail(StoreLeaseFailure::Query);
                }
            },
            Err(_) => {
                return fail(StoreLeaseFailure::Query);
            },
        },
        _ => {
            return fail(StoreLeaseFailure::Query);
        },
    }
    if history.len() == 5 {
        return Step::Perform(
            Statement::ReleaseRequestInputLeases { request_id: request_id.clone() },
        );
    }
    match release_locked_request_leases(&history[5], &locked, maximum) {
        Some(leases) => commit(history, 6, ReleasedRequestLeases { leases }),
        None => fail(StoreLeaseFailure::Query),
    }
}

/// How the leases of a request are released that no session is attached to.
pub open spec fn unattached_step(
    database_url: Seq<char>,
    request_id: String,
    limits: WorkerLimits,
    history: Seq<Reply>,
) -> Step<Seq<StoreLeaseRecord>, StoreLeaseError> {
    let maximum = limits.maximum_store_path_bytes as nat;
    if text::is_blank(database_url) || !database::is_component(request_id@) {
        failed(StoreLeaseFailure::Configuration)
    } else if let Some(step) = begun(history) {
        step
    } else if history.len() == 1 {
        Step::Perform(Statement::LockBuildRequest { request_id })
    } else if let Some(failure) = request_refusal(history[1], maximum) {
        failed(failure)
    } else if history.len() == 2 {
        Step::Perform(Statement::FindAttachment { request_id })
    } else {
        match history[2] {
            Reply::Found(true) => failed(StoreLeaseFailure::InvalidState),
            Reply::Found(false) => if history.len() == 3 {
                Step::Perform(Statement::LockRequestLeases { request_id })
            } else {
                match locked_leases(history[3], request_id@, maximum) {
                    Some(locked) => if history.len() == 4 {
                        Step::Perform(Statement::ReleaseRequestInputLeases { request_id })
                    } else {
                        match released_leases(history[4], locked, maximum) {
                            Some(released) => committed(history, 5, released),
                            None => failed(StoreLeaseFailure::Query),
                        }
                    },
                    None => failed(StoreLeaseFailure::Query),
                }
            },
            _ => failed(StoreLeaseFailure::Query),
        }
    }
}

/// Releases the leases on what the build of a request reads, where no session is attached to it.
pub fn release_unattached_request_leases(
    database_url: &str,
    request_id: &String,
    limits: &WorkerLimits,
    history: &Vec<Reply>,
) -> (step: Step<ReleasedRequestLeases, StoreLeaseError>)
    ensures
        released_list(step) == unattached_step(database_url@, *request_id, *limits, history@),
{
    let maximum: usize = limits.maximum_store_path_bytes;
    if text::blank(database_url) || !component(request_id.as_str()) {
        return fail(StoreLeaseFailure::Configuration);
    }
    if let Some(step) = begin(history) {
        return step;
    }
    if history.len() == 1 {
        return Step::Perform(Statement::LockBuildRequest { request_id: request_id.clone() });
    }
    if let Some(failure) = refused_request(&history[1], maximum) {
        return fail(failure);
    }
    if history.len() == 2 {
        return Step::Perform(Statement::FindAttachment { request_id: request_id.clone() });
    }
    match &history[2] {
        Reply::Found(found) => {
            if *found {
                return fail(StoreLeaseFailure::InvalidState);
            }
        },
        _ => {
            return fail(StoreLeaseFailure::Query);
        },
    }
    if history.len() == 3 {
        return Step::Perform(Statement::LockRequestLeases { request_id: request_id.clone() });
    }
    let locked = match lock_active_request_leases(&history[3], request_id.as_str(), maximum) {
        Some(locked) => locked,
        None => {
            return fail(StoreLeaseFailure::Query);
        },
    };
    if history.len() == 4 {
        return Step::Perform(
            Statement::ReleaseRequestInputLeases { request_id: request_id.clone() },
        );
    }
    match release_locked_request_leases(&history[4], &locked, maximum) {
        Some(leases) => commit(history, 5, ReleasedRequestLeases { leases }),
        None => fail(StoreLeaseFailure::Query),
    }
}

/// Releasing the leases of a request releases, at one moment, every lease on its derivation and
/// its inputs, and none on its outputs.
pub proof fn outputs_outlive_the_request(
    database_url: Seq<char>,
    session_id: String,
    request_id: String,
    limits: WorkerLimits,
    history: Seq<Reply>,
)
    requires
        detach_step(database_url, session_id, request_id, limits, history) is Finish,
        detach_step(database_url, session_id, request_id, limits, history)->Finish_0 is Ok,
    ensures
        ({
            let released = detach_step(
                database_url,
                session_id,
                request_id,
                limits,
                history,
            )->Finish_0->Ok_0;
            let locked = locked_leases(
                history[3],
                request_id@,
                limits.maximum_store_path_bytes as nat,
            )->0;
            &&& released.len() == retained_of(locked).len()
            &&& forall|i: int|
                0 <= i < released.len() ==> {
                    &&& (#[trigger] released[i]).state == StoreLeaseState::Released
                    &&& released[i].owner_kind == StoreLeaseOwnerKind::Request
                    &&& released[i].owner_id@ == request_id@
                    &&& released[i].purpose.is_retained()
                    &&& released[i].released_at == released[0].released_at
                }
        }),
{
    let maximum = limits.maximum_store_path_bytes as nat;
    let locked = locked_leases(history[3], request_id@, maximum)->0;
    let released = released_leases(history[5], locked, maximum)->0;
    let kept = |lease: StoreLeaseRecord| lease.purpose.is_retained();
    assert forall|i: int| 0 <= i < released.len() implies {
        &&& (#[trigger] released[i]).state == StoreLeaseState::Released
        &&& released[i].owner_kind == StoreLeaseOwnerKind::Request
        &&& released[i].owner_id@ == request_id@
        &&& released[i].purpose.is_retained()
        &&& released[i].released_at == released[0].released_at
    } by {
        assert(is_release_of(released[i], retained_of(locked)[i]));
        locked.lemma_filter_pred(kept, i);
        locked.lemma_filter_contains_rev(kept, retained_of(locked)[i]);
        let place = choose|place: int|
            0 <= place < locked.len() && locked[place] == retained_of(locked)[i];
        assert(is_held(locked[place], request_id@));
    }
}

/// How a lease is released: only an active one can be.
pub open spec fn release_step(
    database_url: Seq<char>,
    lease_id: String,
    limits: WorkerLimits,
    history: Seq<Reply>,
) -> Step<StoreLeaseRecord, StoreLeaseError> {
    let maximum = limits.maximum_store_path_bytes as nat;
    if !database::is_component(lease_id@) || text::is_blank(database_url) {
        failed(StoreLeaseFailure::Configuration)
    } else if let Some(step) = begun(history) {
        step
    } else if history.len() == 1 {
        Step::Perform(Statement::LockLease { lease_id })
    } else if history[1] matches Reply::Lease(None) {
        failed(StoreLeaseFailure::Missing)
    } else {
        match replied_lease(history[1], StoreLeaseFailure::Query, maximum) {
            Ok(lease) => if lease.state == StoreLeaseState::Released {
                failed(StoreLeaseFailure::InvalidState)
            } else if history.len() == 2 {
                Step::Perform(Statement::ReleaseActiveLease { lease_id })
            } else {
                match replied_lease(history[2], StoreLeaseFailure::Query, maximum) {
                    Ok(released) => committed(history, 3, released),
                    Err(failure) => failed(failure),
                }
            },
            Err(failure) => failed(failure),
        }
    }
}

/// Releases a lease.
pub fn release_store_lease(
    database_url: &str,
    lease_id: &String,
    limits: &WorkerLimits,
    history: &Vec<Reply>,
) -> (step: Step<StoreLeaseRecord, StoreLeaseError>)
    ensures
        step == release_step(database_url@, *lease_id, *limits, history@),
{
    let maximum: usize = limits.maximum_store_path_bytes;
    if !component(lease_id.as_str()) || text::blank(database_url) {
        return fail(StoreLeaseFailure::Configuration);
    }
    if let Some(step) = begin(history) {
        return step;
    }
    if history.len() == 1 {
        return Step::Perform(Statement::LockLease { lease_id: lease_id.clone() });
    }
    if let Reply::Lease(None) = &history[1] {
        return fail(StoreLeaseFailure::Missing);
    }
    match lease_in(&history[1], StoreLeaseFailure::Query, maximum) {
        Ok(lease) => {
            if lease.state == StoreLeaseState::Released {
                return fail(StoreLeaseFailure::InvalidState);
            }
        },
        Err(failure) => {
            return fail(failure);
        },
    }
    if history.len() == 2 {
        return Step::Perform(Statement::ReleaseActiveLease { lease_id: lease_id.clone() });
    }
    match lease_in(&history[2], StoreLeaseFailure::Query, maximum) {
        Ok(released) => commit(history, 3, released),
        Err(failure) => fail(failure),
    }
}

/// A lease on an output of a request that holds.
pub open spec fn is_held_output(lease: StoreLeaseRecord) -> bool {
    &&& lease.owner_kind == StoreLeaseOwnerKind::Request
    &&& lease.purpose == StoreLeasePurpose::Output
    &&& lease.state == StoreLeaseState::Active
}

/// The place to go on from, where there is one, is the name of a lease.
pub open spec fn is_place(after_lease_id: Option<String>) -> bool {
    match after_lease_id {
        Some(lease_id) => database::is_component(lease_id@),
        None => true,
    }
}

fn place_valid(after_lease_id: &Option<String>) -> (valid: bool)
    ensures
        valid == is_place(*after_lease_id),
{
    match after_lease_id {
        Some(lease_id) => component(lease_id.as_str()),
        None => true,
    }
}

/// How expired leases on outputs are released: a page of them is locked, and each is released.
pub open spec fn expire_step(
    database_url: Seq<char>,
    now: Moment,
    after_lease_id: Option<String>,
    maximum_rows: usize,
    limits: WorkerLimits,
    history: Seq<Reply>,
) -> Step<Seq<StoreLeaseRecord>, StoreLeaseError> {
    let maximum = limits.maximum_store_path_bytes as nat;
    if text::is_blank(database_url) || !(1 <= maximum_rows <= 256) || now < 0 || !is_place(
        after_lease_id,
    ) {
        failed(StoreLeaseFailure::Configuration)
    } else if let Some(step) = begun(history) {
        step
    } else if history.len() == 1 {
        Step::Perform(
            Statement::LockExpiredOutputLeases {
                now,
                after_lease_id,
                maximum_rows: maximum_rows as i64,
            },
        )
    } else {
        match expired_leases(history[1], maximum) {
            Some(selected) => {
                let count = answered(history, 2, selected.len());
                match replied_leases(
                    history.subrange(2, 2 + count),
                    StoreLeaseFailure::Query,
                    maximum,
                ) {
                    Ok(released) => if count < selected.len() {
                        Step::Perform(
                            Statement::ReleaseActiveLease { lease_id: selected[count].lease_id },
                        )
                    } else {
                        committed(history, 2 + selected.len() as int, released)
                    },
                    Err(failure) => failed(failure),
                }
            },
            None => failed(StoreLeaseFailure::Query),
        }
    }
}

/// The leases that a reply gives to be released because they expired.
pub open spec fn expired_leases(reply: Reply, maximum_path_bytes: nat) -> Option<
    Seq<StoreLeaseRecord>,
> {
    match reply {
        Reply::Leases(rows) => match leases_of(rows@, maximum_path_bytes) {
            Some(leases) => if forall|i: int|
                0 <= i < leases.len() ==> is_held_output(#[trigger] leases[i]) {
                Some(leases)
            } else {
                None
            },
            None => None,
        },
        _ => None,
    }
}

fn select_expired(reply: &Reply, maximum_path_bytes: usize) -> (selected: Option<
    Vec<StoreLeaseRecord>,
>)
    ensures
        match selected {
            Some(leases) => expired_leases(*reply, maximum_path_bytes as nat) == Some(leases@),
            None => expired_leases(*reply, maximum_path_bytes as nat) is None,
        },
{
    let rows = match reply {
        Reply::Leases(rows) => rows,
        _ => {
            return None;
        },
    };
    let leases = match decode_leases(rows, maximum_path_bytes) {
        Some(leases) => leases,
        None => {
            return None;
        },
    };
    let mut i: usize = 0;
    while i < leases.len()
        invariant
            i <= leases@.len(),
            forall|j: int| 0 <= j < i ==> is_held_output(#[trigger] leases@[j]),
        ensures
            i <= leases@.len(),
            forall|j: int| 0 <= j < i ==> is_held_output(#[trigger] leases@[j]),
            i < leases@.len() ==> !is_held_output(leases@[i as int]),
        decreases leases@.len() - i,
    {
        if leases[i].owner_kind != StoreLeaseOwnerKind::Request || leases[i].purpose
            != StoreLeasePurpose::Output || leases[i].state != StoreLeaseState::Active {
            break;
        }
        i += 1;
    }
    if i < leases.len() {
        None
    } else {
        Some(leases)
    }
}

/// Releases leases on outputs that have expired, a page of them at a time.
pub fn release_expired_request_output_leases(
    database_url: &str,
    now: Moment,
    after_lease_id: &Option<String>,
    maximum_rows: usize,
    limits: &WorkerLimits,
    history: &Vec<Reply>,
) -> (step: Step<Vec<StoreLeaseRecord>, StoreLeaseError>)
    ensures
        database::listed(step) == expire_step(
            database_url@,
            now,
            *after_lease_id,
            maximum_rows,
            *limits,
            history@,
        ),
{
    let maximum: usize = limits.maximum_store_path_bytes;
    if text::blank(database_url) || maximum_rows < 1 || maximum_rows > 256 || now < 0
        || !place_valid(after_lease_id) {
        return fail(StoreLeaseFailure::Configuration);
    }
    if let Some(step) = begin(history) {
        return step;
    }
    if history.len() == 1 {
        return Step::Perform(
            Statement::LockExpiredOutputLeases {
                now,
                after_lease_id: copy_option(after_lease_id),
                maximum_rows: maximum_rows as i64,
            },
        );
    }
    let selected = match select_expired(&history[1], maximum) {
        Some(selected) => selected,
        None => {
            return fail(StoreLeaseFailure::Query);
        },
    };
    let wanted: usize = selected.len();
    let available: usize = history.len() - 2;
    let count: usize = if available < wanted {
        available
    } else {
        wanted
    };
    let released = match leases_in(history, 2, count, StoreLeaseFailure::Query, maximum) {
        Ok(released) => released,
        Err(failure) => {
            return fail(failure);
        },
    };
    if count < wanted {
        return Step::Perform(
            Statement::ReleaseActiveLease { lease_id: selected[count].lease_id.clone() },
        );
    }
    commit(history, 2 + wanted, released)
}

/// Only leases on outputs are ever released because they expired.
pub proof fn only_outputs_expire(
    database_url: Seq<char>,
    now: Moment,
    after_lease_id: Option<String>,
    maximum_rows: usize,
    limits: WorkerLimits,
    history: Seq<Reply>,
    lease_id: String,
)
    requires
        expire_step(database_url, now, after_lease_id, maximum_rows, limits, history) == Step::<
            Seq<StoreLeaseRecord>,
            StoreLeaseError,
        >::Perform(Statement::ReleaseActiveLease { lease_id }),
    ensures
        history[1] matches Reply::Leases(rows) && exists|i: int|
            0 <= i < rows@.len() && (#[trigger] rows@[i]).lease_id == lease_id && rows@[i].purpose@
                == "output"@,
{
    let maximum = limits.maximum_store_path_bytes as nat;
    let rows = history[1]->Leases_0@;
    let selected = expired_leases(history[1], maximum)->0;
    let place = answered(history, 2, selected.len());
    assert(is_held_output(selected[place]));
    assert(lease_of(rows[place], maximum) == Some(selected[place]));
    assert(rows[place].lease_id == lease_id);
}

/// How a page of released leases of requests is read.
pub open spec fn page_step(
    database_url: Seq<char>,
    after_lease_id: Option<String>,
    maximum_rows: usize,
    limits: WorkerLimits,
    history: Seq<Reply>,
) -> Step<Seq<StoreLeaseRecord>, StoreLeaseError> {
    let rows = if maximum_rows < MAXIMUM_RELEASED_REQUEST_LEASES_PAGE_ROWS {
        maximum_rows
    } else {
        MAXIMUM_RELEASED_REQUEST_LEASES_PAGE_ROWS
    };
    if text::is_blank(database_url) || !is_place(after_lease_id) {
        failed(StoreLeaseFailure::Configuration)
    } else if rows == 0 {
        Step::Finish(Ok(Seq::empty()))
    } else if let Some(step) = begun(history) {
        step
    } else if history.len() == 1 {
        Step::Perform(
            Statement::ReadReleasedRequestLeases { after_lease_id, maximum_rows: rows as i64 },
        )
    } else {
        match history[1] {
            Reply::Leases(rows) => match leases_of(rows@, limits.maximum_store_path_bytes as nat) {
                Some(leases) => if forall|i: int|
                    0 <= i < leases.len() ==> is_released_request_lease(#[trigger] leases[i]) {
                    Step::Finish(Ok(leases))
                } else {
                    failed(StoreLeaseFailure::Query)
                },
                None => failed(StoreLeaseFailure::Query),
            },
            _ => failed(StoreLeaseFailure::Query),
        }
    }
}

/// A lease of a request that holds no more.
pub open spec fn is_released_request_lease(lease: StoreLeaseRecord) -> bool {
    lease.owner_kind == StoreLeaseOwnerKind::Request && lease.state == StoreLeaseState::Released
}

/// Reads a page of released leases of requests.
pub fn read_released_request_leases_page(
    database_url: &str,
    after_lease_id: &Option<String>,
    maximum_rows: usize,
    limits: &WorkerLimits,
    history: &Vec<Reply>,
) -> (step: Step<Vec<StoreLeaseRecord>, StoreLeaseError>)
    ensures
        database::listed(step) == page_step(
            database_url@,
            *after_lease_id,
            maximum_rows,
            *limits,
            history@,
        ),
{
    if text::blank(database_url) || !place_valid(after_lease_id) {
        return fail(StoreLeaseFailure::Configuration);
    }
    let page_rows: usize = if maximum_rows < MAXIMUM_RELEASED_REQUEST_LEASES_PAGE_ROWS {
        maximum_rows
    } else {
        MAXIMUM_RELEASED_REQUEST_LEASES_PAGE_ROWS
    };
    if page_rows == 0 {
        let none: Vec<StoreLeaseRecord> = Vec::new();
        assert(none@ =~= Seq::<StoreLeaseRecord>::empty());
        return Step::Finish(Ok(none));
    }
    if let Some(step) = begin(history) {
        return step;
    }
    if history.len() == 1 {
        return Step::Perform(
            Statement::ReadReleasedRequestLeases {
                after_lease_id: copy_option(after_lease_id),
                maximum_rows: page_rows as i64,
            },
        );
    }
    let rows = match &history[1] {
        Reply::Leases(rows) => rows,
        _ => {
            return fail(StoreLeaseFailure::Query);
        },
    };
    let leases = match decode_leases(rows, limits.maximum_store_path_bytes) {
        Some(leases) => leases,
        None => {
            return fail(StoreLeaseFailure::Query);
        },
    };
    let mut i: usize = 0;
    while i < leases.len()
        invariant
            i <= leases@.len(),
            forall|j: int| 0 <= j < i ==> is_released_request_lease(#[trigger] leases@[j]),
        ensures
            i <= leases@.len(),
            forall|j: int| 0 <= j < i ==> is_released_request_lease(#[trigger] leases@[j]),
            i < leases@.len() ==> !is_released_request_lease(leases@[i as int]),
        decreases leases@.len() - i,
    {
        if leases[i].owner_kind != StoreLeaseOwnerKind::Request || leases[i].state
            != StoreLeaseState::Released {
            break;
        }
        i += 1;
    }
    if i < leases.len() {
        return fail(StoreLeaseFailure::Query);
    }
    Step::Finish(Ok(leases))
}

/// How a lease is read.
pub open spec fn read_step(
    database_url: Seq<char>,
    lease_id: String,
    limits: WorkerLimits,
    history: Seq<Reply>,
) -> Step<Option<StoreLeaseRecord>, StoreLeaseError> {
    if !database::is_component(lease_id@) || text::is_blank(database_url) {
        failed(StoreLeaseFailure::Configuration)
    } else if let Some(step) = begun(history) {
        step
    } else if history.len() == 1 {
        Step::Perform(Statement::ReadLease { lease_id })
    } else if history[1] matches Reply::Lease(None) {
        Step::Finish(Ok(None))
    } else {
        match replied_lease(
            history[1],
            StoreLeaseFailure::Query,
            limits.maximum_store_path_bytes as nat,
        ) {
            Ok(lease) => Step::Finish(Ok(Some(lease))),
            Err(failure) => failed(failure),
        }
    }
}

/// Reads a lease, if there is one.
pub fn read_store_lease(
    database_url: &str,
    lease_id: &String,
    limits: &WorkerLimits,
    history: &Vec<Reply>,
) -> (step: Step<Option<StoreLeaseRecord>, StoreLeaseError>)
    ensures
        step == read_step(database_url@, *lease_id, *limits, history@),
{
    if !component(lease_id.as_str()) || text::blank(database_url) {
        return fail(StoreLeaseFailure::Configuration);
    }
    if let Some(step) = begin(history) {
        return step;
    }
    if history.len() == 1 {
        return Step::Perform(Statement::ReadLease { lease_id: lease_id.clone() });
    }
    if let Reply::Lease(None) = &history[1] {
        return Step::Finish(Ok(None));
    }
    match lease_in(&history[1], StoreLeaseFailure::Query, limits.maximum_store_path_bytes) {
        Ok(lease) => Step::Finish(Ok(Some(lease))),
        Err(failure) => fail(failure),
    }
}

/// A lease that was released is not released again.
pub proof fn released_lease_stays_released(
    database_url: Seq<char>,
    lease_id: String,
    limits: WorkerLimits,
    history: Seq<Reply>,
)
    requires
        history.len() >= 2,
        replied_lease(
            history[1],
            StoreLeaseFailure::Query,
            limits.maximum_store_path_bytes as nat,
        ) matches Ok(lease) && lease.state == StoreLeaseState::Released,
        history[0] is Done,
        database::is_component(lease_id@),
        !text::is_blank(database_url),
    ensures
        release_step(database_url, lease_id, limits, history) == failed::<StoreLeaseRecord>(
            StoreLeaseFailure::InvalidState,
        ),
{
}

} // verus!
