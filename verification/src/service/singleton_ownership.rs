//! The lease by which one process at a time owns the gateway, and the connection string that
//! fences its sessions to that lease.

use crate::text;
use crate::time::Span;
use vstd::prelude::*;

verus! {

pub const DAEMON_OWNER_KIND: &'static str = "daemon";

pub const LOCAL_EXECUTOR_OWNER_KIND: &'static str = "local-executor";

/// Why an operation on the ownership failed.
#[derive(Clone, Copy, Debug, PartialEq, Eq, Structural)]
pub enum SingletonOwnershipFailure {
    Configuration,
    Connection,
    Query,
    Contended,
    Fenced,
}

impl SingletonOwnershipFailure {
    pub open spec fn name(self) -> Seq<char> {
        match self {
            SingletonOwnershipFailure::Configuration => "configuration"@,
            SingletonOwnershipFailure::Connection => "connection"@,
            SingletonOwnershipFailure::Query => "query"@,
            SingletonOwnershipFailure::Contended => "contended"@,
            SingletonOwnershipFailure::Fenced => "fenced"@,
        }
    }

    pub fn as_str(self) -> (name: &'static str)
        ensures
            name@ == self.name(),
    {
        match self {
            SingletonOwnershipFailure::Configuration => "configuration",
            SingletonOwnershipFailure::Connection => "connection",
            SingletonOwnershipFailure::Query => "query",
            SingletonOwnershipFailure::Contended => "contended",
            SingletonOwnershipFailure::Fenced => "fenced",
        }
    }
}

/// A failed operation on the ownership.
#[derive(Clone, Copy, Debug, PartialEq, Eq, Structural)]
pub struct SingletonOwnershipError(pub SingletonOwnershipFailure);

impl SingletonOwnershipError {
    pub fn failure(&self) -> (failure: SingletonOwnershipFailure)
        ensures
            failure == self.0,
    {
        self.0
    }

    pub fn message(&self) -> (message: &'static str)
        ensures
            message@ == "singleton ownership operation failed"@,
    {
        "singleton ownership operation failed"
    }
}

/// What the database says when the ownership is asked for.
#[derive(Clone, Copy, Debug, PartialEq, Eq, Structural)]
pub enum AcquireReply {
    NotConnected,
    Refused,
    /// Another process holds a lease that has not lapsed.
    NoRow,
    /// A row came without a readable generation.
    Unreadable,
    /// The lease is granted, as this generation.
    Generation(i64),
}

/// What the database says when the lease is renewed or looked at: how many rows matched.
#[derive(Clone, Copy, Debug, PartialEq, Eq, Structural)]
pub enum LeaseReply {
    NotConnected,
    Refused,
    Rows(u64),
}

/// The ownership of the gateway.
#[derive(Clone, Debug)]
pub struct SingletonOwnership {
    pub database_url: String,
    pub owner_kind: &'static str,
    pub owner_token: String,
    pub generation: i64,
    pub lease_duration: Span,
}

/// What is asked of the database.
#[derive(Debug)]
pub enum OwnershipStatement {
    /// Take the lease of a kind where there is none or it has lapsed, as the next generation, and
    /// tell which that is.
    Acquire { owner_kind: &'static str, owner_token: String, milliseconds: i64 },
    /// Let a lease that has not lapsed hold for so long from now on.
    Renew { owner_kind: &'static str, owner_token: String, generation: i64, milliseconds: i64 },
    /// Look for a lease that has not lapsed.
    Verify { owner_kind: &'static str, owner_token: String, generation: i64 },
    /// Give a lease up.
    Release { owner_kind: &'static str, owner_token: String, generation: i64 },
}

/// The whole milliseconds of a length of time.
pub open spec fn milliseconds(span: Span) -> int {
    span.seconds * 1000 + span.nanoseconds / 1_000_000
}

/// A lease has a database and a length, and its milliseconds can be counted.
pub open spec fn is_lease(database_url: Seq<char>, lease: Span) -> bool {
    &&& !text::is_blank(database_url)
    &&& !(lease.seconds == 0 && lease.nanoseconds == 0)
    &&& milliseconds(lease) <= i64::MAX
}

/// How long a lease is in milliseconds.
pub fn lease_milliseconds(database_url: &str, lease_duration: Span) -> (length: Result<
    i64,
    SingletonOwnershipError,
>)
    ensures
        is_lease(database_url@, lease_duration) ==> length is Ok && length->Ok_0 == milliseconds(
            lease_duration,
        ),
        !is_lease(database_url@, lease_duration) ==> length == Err::<i64, SingletonOwnershipError>(
            SingletonOwnershipError(SingletonOwnershipFailure::Configuration),
        ),
{
    if text::blank(database_url) || lease_duration.is_zero() {
        return Err(SingletonOwnershipError(SingletonOwnershipFailure::Configuration));
    }
    let length: u128 = lease_duration.seconds as u128 * 1000 + (lease_duration.nanoseconds
        / 1_000_000) as u128;
    if length > i64::MAX as u128 {
        return Err(SingletonOwnershipError(SingletonOwnershipFailure::Configuration));
    }
    Ok(length as i64)
}

/// The settings that tie a database session to a lease.
pub open spec fn fence_options(
    owner_kind: Seq<char>,
    owner_token: Seq<char>,
    generation: i64,
) -> Seq<char> {
    "-c telchar.owner_kind="@ + owner_kind + " -c telchar.owner_token="@ + owner_token
        + " -c telchar.owner_generation="@ + text::signed_text(generation as int)
}

/// A text with its spaces and equals signs written as in a URL.
pub open spec fn url_encoded(options: Seq<char>) -> Seq<char>
    decreases options.len(),
{
    if options.len() == 0 {
        Seq::empty()
    } else {
        url_encoded(options.drop_last()) + if options.last() == ' ' {
            "%20"@
        } else if options.last() == '=' {
            "%3D"@
        } else {
            seq![options.last()]
        }
    }
}

/// The database is named by a URL, not by a list of settings.
pub open spec fn is_url(database_url: Seq<char>) -> bool {
    "postgres://"@.is_prefix_of(database_url) || "postgresql://"@.is_prefix_of(database_url)
}

/// The database with the settings that tie a session to a lease.
pub open spec fn fenced_url(
    database_url: Seq<char>,
    owner_kind: Seq<char>,
    owner_token: Seq<char>,
    generation: i64,
) -> Seq<char> {
    let options = fence_options(owner_kind, owner_token, generation);
    if is_url(database_url) {
        database_url + (if database_url.contains('?') {
            "&"@
        } else {
            "?"@
        }) + "options="@ + url_encoded(options)
    } else {
        database_url + " options='"@ + options + "'"@
    }
}

fn append_url_encoded(output: &mut String, options: &str)
    ensures
        final(output)@ == old(output)@ + url_encoded(options@),
{
    let characters = text::characters(options);
    let mut i: usize = 0;
    let ghost before = output@;
    assert(options@.take(0) =~= Seq::<char>::empty());
    assert(before + url_encoded(options@.take(0)) =~= before);
    while i < characters.len()
        invariant
            characters@ == options@,
            i <= options@.len(),
            output@ == before + url_encoded(options@.take(i as int)),
        decreases options@.len() - i,
    {
        assert(options@.take(i + 1).drop_last() =~= options@.take(i as int));
        let ghost current = output@;
        if characters[i] == ' ' {
            output.append("%20");
        } else if characters[i] == '=' {
            output.append("%3D");
        } else {
            let one = options.substring_char(i, i + 1);
            assert(one@ =~= seq![options@[i as int]]);
            output.append(one);
        }
        assert(output@ =~= before + url_encoded(options@.take(i + 1)));
        i += 1;
    }
    assert(options@.take(options@.len() as int) =~= options@);
}

/// Whether a text names a database that can be connected to.
pub uninterp spec fn database_url_parses(database_url: Seq<char>) -> bool;

/// Parses a text as `postgres::Config`, which on Unix succeeds or fails by the text alone.
#[verifier::external_body]
fn parse_database_url(database_url: &str) -> (readable: bool)
    ensures
        readable == database_url_parses(database_url@),
{
    database_url.parse::<postgres::Config>().is_ok()
}

/// Ties the sessions of a database to a lease, where the name of the database can be parsed.
pub fn fenced_database_url(
    database_url: &str,
    owner_kind: &str,
    owner_token: &str,
    generation: i64,
) -> (fenced: Result<String, SingletonOwnershipError>)
    ensures
        database_url_parses(database_url@) ==> fenced is Ok && fenced->Ok_0@ == fenced_url(
            database_url@,
            owner_kind@,
            owner_token@,
            generation,
        ),
        !database_url_parses(database_url@) ==> fenced == Err::<String, SingletonOwnershipError>(
            SingletonOwnershipError(SingletonOwnershipFailure::Configuration),
        ),
{
    let readable = parse_database_url(database_url);
    fence_database(database_url, readable, owner_kind, owner_token, generation)
}

/// Ties the sessions of a database to a lease; `readable` says whether its name was parsed.
pub fn fence_database(
    database_url: &str,
    readable: bool,
    owner_kind: &str,
    owner_token: &str,
    generation: i64,
) -> (fenced: Result<String, SingletonOwnershipError>)
    ensures
        readable ==> fenced is Ok && fenced->Ok_0@ == fenced_url(
            database_url@,
            owner_kind@,
            owner_token@,
            generation,
        ),
        !readable ==> fenced == Err::<String, SingletonOwnershipError>(
            SingletonOwnershipError(SingletonOwnershipFailure::Configuration),
        ),
{
    if !readable {
        return Err(SingletonOwnershipError(SingletonOwnershipFailure::Configuration));
    }
    let mut options = "-c telchar.owner_kind=".to_owned();
    options.append(owner_kind);
    options.append(" -c telchar.owner_token=");
    options.append(owner_token);
    options.append(" -c telchar.owner_generation=");
    text::append_signed(&mut options, generation);
    let mut fenced = database_url.to_owned();
    if text::starts_with(database_url, "postgres://") || text::starts_with(
        database_url,
        "postgresql://",
    ) {
        if text::contains_character(database_url, '?') {
            fenced.append("&");
        } else {
            fenced.append("?");
        }
        fenced.append("options=");
        append_url_encoded(&mut fenced, options.as_str());
    } else {
        fenced.append(" options='");
        fenced.append(options.as_str());
        fenced.append("'");
    }
    Ok(fenced)
}

/// A name for a process that asks for the ownership: its number, the time in nanoseconds and
/// how often it has asked.
pub fn owner_token(process: u32, time: u128, sequence: u64) -> (token: String)
    ensures
        token@ == text::hexadecimal_text(process as nat) + "-"@ + text::hexadecimal_text(
            time as nat,
        ) + "-"@ + text::hexadecimal_text(sequence as nat),
{
    let mut token = String::new();
    text::append_hexadecimal(&mut token, process as u128);
    token.append("-");
    text::append_hexadecimal(&mut token, time);
    token.append("-");
    text::append_hexadecimal(&mut token, sequence as u128);
    assert(token@ =~= text::hexadecimal_text(process as nat) + "-"@ + text::hexadecimal_text(
        time as nat,
    ) + "-"@ + text::hexadecimal_text(sequence as nat));
    token
}

/// Why the ownership is not granted.
pub open spec fn acquire_failure(
    database_url: Seq<char>,
    lease: Span,
    reply: AcquireReply,
    readable: bool,
) -> Option<SingletonOwnershipFailure> {
    if !is_lease(database_url, lease) {
        Some(SingletonOwnershipFailure::Configuration)
    } else {
        match reply {
            AcquireReply::NotConnected => Some(SingletonOwnershipFailure::Connection),
            AcquireReply::Refused | AcquireReply::Unreadable => Some(
                SingletonOwnershipFailure::Query,
            ),
            AcquireReply::NoRow => Some(SingletonOwnershipFailure::Contended),
            AcquireReply::Generation(_) => if readable {
                None
            } else {
                Some(SingletonOwnershipFailure::Configuration)
            },
        }
    }
}

/// The ownership that a granted lease gives.
pub open spec fn is_granted(
    ownership: SingletonOwnership,
    database_url: Seq<char>,
    owner_kind: &'static str,
    owner_token: Seq<char>,
    lease: Span,
    generation: i64,
) -> bool {
    &&& ownership.database_url@ == fenced_url(database_url, owner_kind@, owner_token, generation)
    &&& ownership.owner_kind == owner_kind
    &&& ownership.owner_token@ == owner_token
    &&& ownership.generation == generation
    &&& ownership.lease_duration == lease
}

/// How the ownership of a kind is asked for.
pub open spec fn acquire_request(
    database_url: Seq<char>,
    owner_kind: &'static str,
    lease: Span,
    owner_token: String,
) -> Result<OwnershipStatement, SingletonOwnershipError> {
    if is_lease(database_url, lease) {
        Ok(
            OwnershipStatement::Acquire {
                owner_kind,
                owner_token,
                milliseconds: milliseconds(lease) as i64,
            },
        )
    } else {
        Err(SingletonOwnershipError(SingletonOwnershipFailure::Configuration))
    }
}

/// Why a lease is not held any more.
pub open spec fn lease_failure(reply: LeaseReply, needed: u64) -> Option<SingletonOwnershipFailure> {
    match reply {
        LeaseReply::NotConnected => Some(SingletonOwnershipFailure::Connection),
        LeaseReply::Refused => Some(SingletonOwnershipFailure::Query),
        LeaseReply::Rows(count) => if count == needed {
            None
        } else {
            Some(SingletonOwnershipFailure::Fenced)
        },
    }
}

impl SingletonOwnership {
    /// How the lease is renewed.
    pub open spec fn renewal_request(self) -> Result<OwnershipStatement, SingletonOwnershipError> {
        if is_lease(self.database_url@, self.lease_duration) {
            Ok(
                OwnershipStatement::Renew {
                    owner_kind: self.owner_kind,
                    owner_token: self.owner_token,
                    generation: self.generation,
                    milliseconds: milliseconds(self.lease_duration) as i64,
                },
            )
        } else {
            Err(SingletonOwnershipError(SingletonOwnershipFailure::Configuration))
        }
    }

    /// How the lease is looked for.
    pub open spec fn verification_request(self) -> OwnershipStatement {
        OwnershipStatement::Verify {
            owner_kind: self.owner_kind,
            owner_token: self.owner_token,
            generation: self.generation,
        }
    }

    /// How the lease is given up.
    pub open spec fn release_request(self) -> OwnershipStatement {
        OwnershipStatement::Release {
            owner_kind: self.owner_kind,
            owner_token: self.owner_token,
            generation: self.generation,
        }
    }

    /// What a renewal comes to, as the database has answered.
    pub open spec fn renewal(self, reply: LeaseReply) -> Result<(), SingletonOwnershipError> {
        if !is_lease(self.database_url@, self.lease_duration) {
            Err(SingletonOwnershipError(SingletonOwnershipFailure::Configuration))
        } else {
            match lease_failure(reply, 1) {
                Some(failure) => Err(SingletonOwnershipError(failure)),
                None => Ok(()),
            }
        }
    }

    /// What looking for the lease comes to, as the database has answered.
    pub open spec fn verification(self, reply: LeaseReply) -> Result<(), SingletonOwnershipError> {
        match reply {
            LeaseReply::NotConnected => Err(
                SingletonOwnershipError(SingletonOwnershipFailure::Connection),
            ),
            LeaseReply::Refused => Err(SingletonOwnershipError(SingletonOwnershipFailure::Query)),
            LeaseReply::Rows(count) => if count == 0 {
                Err(SingletonOwnershipError(SingletonOwnershipFailure::Fenced))
            } else {
                Ok(())
            },
        }
    }

    /// Asks for the ownership of the daemon.
    pub fn acquire_statement(
        database_url: &str,
        lease_duration: Span,
        owner_token: &String,
    ) -> (statement: Result<OwnershipStatement, SingletonOwnershipError>)
        ensures
            statement == acquire_request(
                database_url@,
                DAEMON_OWNER_KIND,
                lease_duration,
                *owner_token,
            ),
    {
        let milliseconds: i64 = lease_milliseconds(database_url, lease_duration)?;
        Ok(
            OwnershipStatement::Acquire {
                owner_kind: DAEMON_OWNER_KIND,
                owner_token: owner_token.clone(),
                milliseconds,
            },
        )
    }

    /// Asks for the ownership of the local executor.
    pub fn acquire_local_executor_statement(
        database_url: &str,
        lease_duration: Span,
        owner_token: &String,
    ) -> (statement: Result<OwnershipStatement, SingletonOwnershipError>)
        ensures
            statement == acquire_request(
                database_url@,
                LOCAL_EXECUTOR_OWNER_KIND,
                lease_duration,
                *owner_token,
            ),
    {
        let milliseconds: i64 = lease_milliseconds(database_url, lease_duration)?;
        Ok(
            OwnershipStatement::Acquire {
                owner_kind: LOCAL_EXECUTOR_OWNER_KIND,
                owner_token: owner_token.clone(),
                milliseconds,
            },
        )
    }

    /// Asks for the lease to be renewed.
    pub fn renew_statement(&self) -> (statement: Result<
        OwnershipStatement,
        SingletonOwnershipError,
    >)
        ensures
            statement == self.renewal_request(),
    {
        let milliseconds: i64 = lease_milliseconds(
            self.database_url.as_str(),
            self.lease_duration,
        )?;
        Ok(
            OwnershipStatement::Renew {
                owner_kind: self.owner_kind,
                owner_token: self.owner_token.clone(),
                generation: self.generation,
                milliseconds,
            },
        )
    }

    /// Asks for the lease to be looked for.
    pub fn verify_statement(&self) -> (statement: OwnershipStatement)
        ensures
            statement == self.verification_request(),
    {
        OwnershipStatement::Verify {
            owner_kind: self.owner_kind,
            owner_token: self.owner_token.clone(),
            generation: self.generation,
        }
    }

    /// Asks for the lease to be given up.
    pub fn release_statement(&self) -> (statement: OwnershipStatement)
        ensures
            statement == self.release_request(),
    {
        OwnershipStatement::Release {
            owner_kind: self.owner_kind,
            owner_token: self.owner_token.clone(),
            generation: self.generation,
        }
    }

    /// Takes the ownership of the daemon, as the database has answered.
    pub fn acquire(
        database_url: &str,
        lease_duration: Span,
        owner_token: String,
        reply: AcquireReply,
    ) -> (ownership: Result<Self, SingletonOwnershipError>)
        ensures
            match acquire_failure(
                database_url@,
                lease_duration,
                reply,
                database_url_parses(database_url@),
            ) {
                Some(failure) => ownership == Err::<SingletonOwnership, SingletonOwnershipError>(
                    SingletonOwnershipError(failure),
                ),
                None => ownership is Ok && is_granted(
                    ownership->Ok_0,
                    database_url@,
                    DAEMON_OWNER_KIND,
                    owner_token@,
                    lease_duration,
                    reply->Generation_0,
                ),
            },
    {
        SingletonOwnership::acquire_with_kind(
            database_url,
            DAEMON_OWNER_KIND,
            lease_duration,
            owner_token,
            reply,
        )
    }

    /// Takes the ownership of the local executor, as the database has answered.
    pub fn acquire_local_executor(
        database_url: &str,
        lease_duration: Span,
        owner_token: String,
        reply: AcquireReply,
    ) -> (ownership: Result<Self, SingletonOwnershipError>)
        ensures
            match acquire_failure(
                database_url@,
                lease_duration,
                reply,
                database_url_parses(database_url@),
            ) {
                Some(failure) => ownership == Err::<SingletonOwnership, SingletonOwnershipError>(
                    SingletonOwnershipError(failure),
                ),
                None => ownership is Ok && is_granted(
                    ownership->Ok_0,
                    database_url@,
                    LOCAL_EXECUTOR_OWNER_KIND,
                    owner_token@,
                    lease_duration,
                    reply->Generation_0,
                ),
            },
    {
        SingletonOwnership::acquire_with_kind(
            database_url,
            LOCAL_EXECUTOR_OWNER_KIND,
            lease_duration,
            owner_token,
            reply,
        )
    }

    fn acquire_with_kind(
        database_url: &str,
        owner_kind: &'static str,
        lease_duration: Span,
        owner_token: String,
        reply: AcquireReply,
    ) -> (ownership: Result<Self, SingletonOwnershipError>)
        ensures
            match acquire_failure(
                database_url@,
                lease_duration,
                reply,
                database_url_parses(database_url@),
            ) {
                Some(failure) => ownership == Err::<SingletonOwnership, SingletonOwnershipError>(
                    SingletonOwnershipError(failure),
                ),
                None => ownership is Ok && is_granted(
                    ownership->Ok_0,
                    database_url@,
                    owner_kind,
                    owner_token@,
                    lease_duration,
                    reply->Generation_0,
                ),
            },
    {
        lease_milliseconds(database_url, lease_duration)?;
        let generation: i64 = match reply {
            AcquireReply::NotConnected => {
                return Err(SingletonOwnershipError(SingletonOwnershipFailure::Connection));
            },
            AcquireReply::Refused | AcquireReply::Unreadable => {
                return Err(SingletonOwnershipError(SingletonOwnershipFailure::Query));
            },
            AcquireReply::NoRow => {
                return Err(SingletonOwnershipError(SingletonOwnershipFailure::Contended));
            },
            AcquireReply::Generation(generation) => generation,
        };
        let fenced = fenced_database_url(
            database_url,
            owner_kind,
            owner_token.as_str(),
            generation,
        )?;
        Ok(
            SingletonOwnership {
                database_url: fenced,
                owner_kind,
                owner_token,
                generation,
                lease_duration,
            },
        )
    }

    pub fn generation(&self) -> (generation: i64)
        ensures
            generation == self.generation,
    {
        self.generation
    }

    pub fn database_url(&self) -> (database_url: &str)
        ensures
            database_url@ == self.database_url@,
    {
        self.database_url.as_str()
    }

    /// The lease is renewed where exactly one row was changed.
    pub fn renew(&self, reply: LeaseReply) -> (renewed: Result<(), SingletonOwnershipError>)
        ensures
            renewed == self.renewal(reply),
    {
        lease_milliseconds(self.database_url.as_str(), self.lease_duration)?;
        match reply {
            LeaseReply::NotConnected => Err(
                SingletonOwnershipError(SingletonOwnershipFailure::Connection),
            ),
            LeaseReply::Refused => Err(SingletonOwnershipError(SingletonOwnershipFailure::Query)),
            LeaseReply::Rows(count) => {
                if count != 1 {
                    return Err(SingletonOwnershipError(SingletonOwnershipFailure::Fenced));
                }
                Ok(())
            },
        }
    }

    /// The ownership is checked by renewing its lease.
    pub fn check(&self, reply: LeaseReply) -> (checked: Result<(), SingletonOwnershipError>)
        ensures
            checked == self.renewal(reply),
    {
        self.renew(reply)
    }

    /// The lease is held where a row for it is found.
    pub fn verify(&self, reply: LeaseReply) -> (verified: Result<(), SingletonOwnershipError>)
        ensures
            verified == self.verification(reply),
    {
        match reply {
            LeaseReply::NotConnected => Err(
                SingletonOwnershipError(SingletonOwnershipFailure::Connection),
            ),
            LeaseReply::Refused => Err(SingletonOwnershipError(SingletonOwnershipFailure::Query)),
            LeaseReply::Rows(count) => {
                if count == 0 {
                    return Err(SingletonOwnershipError(SingletonOwnershipFailure::Fenced));
                }
                Ok(())
            },
        }
    }
}

/// The fenced connection string begins with the one that was configured.
pub proof fn fencing_keeps_the_database(
    database_url: Seq<char>,
    owner_kind: Seq<char>,
    owner_token: Seq<char>,
    generation: i64,
)
    ensures
        database_url.is_prefix_of(fenced_url(database_url, owner_kind, owner_token, generation)),
{
    let fenced = fenced_url(database_url, owner_kind, owner_token, generation);
    assert(fenced.subrange(0, database_url.len() as int) =~= database_url);
}

/// A renewal succeeds if and only if it reached the one row of the lease, and a lease that is looked
/// for is there if and only if a row was found.
pub proof fn lease_is_held_by_its_row(ownership: SingletonOwnership, reply: LeaseReply)
    requires
        is_lease(ownership.database_url@, ownership.lease_duration),
    ensures
        ownership.renewal(reply) is Ok <==> reply == LeaseReply::Rows(1),
        ownership.verification(reply) is Ok <==> (reply matches LeaseReply::Rows(count) && count
            > 0),
        reply == LeaseReply::Rows(0) ==> ownership.renewal(reply) == Err::<
            (),
            SingletonOwnershipError,
        >(SingletonOwnershipError(SingletonOwnershipFailure::Fenced)) && ownership.verification(
            reply,
        ) == ownership.renewal(reply),
        reply is NotConnected ==> ownership.renewal(reply) == Err::<(), SingletonOwnershipError>(
            SingletonOwnershipError(SingletonOwnershipFailure::Connection),
        ) && ownership.verification(reply) == ownership.renewal(reply),
        reply is Refused ==> ownership.renewal(reply) == Err::<(), SingletonOwnershipError>(
            SingletonOwnershipError(SingletonOwnershipFailure::Query),
        ) && ownership.verification(reply) == ownership.renewal(reply),
{
}

/// What was granted is renewed, looked for and given up under the name, the token and the number
/// that it was granted with, and for the time that it was asked for.
pub proof fn granted_lease_is_spoken_of(
    ownership: SingletonOwnership,
    database_url: Seq<char>,
    owner_kind: &'static str,
    owner_token: String,
    lease: Span,
    generation: i64,
)
    requires
        is_granted(ownership, database_url, owner_kind, owner_token@, lease, generation),
    ensures
        acquire_request(database_url, owner_kind, lease, owner_token) matches Ok(
            OwnershipStatement::Acquire { owner_kind: kind, owner_token: token, milliseconds: asked },
        ) ==> {
            &&& kind == owner_kind
            &&& token@ == owner_token@
            &&& asked == lease.seconds * 1000 + lease.nanoseconds / 1_000_000
            &&& (ownership.renewal_request() matches Ok(
                OwnershipStatement::Renew { milliseconds: renewed, .. },
            ) ==> renewed == asked)
        },
        acquire_request(database_url, owner_kind, lease, owner_token) matches Ok(statement)
            ==> statement is Acquire,
        ownership.renewal_request() matches Ok(statement) ==> {
            &&& statement matches OwnershipStatement::Renew {
                owner_kind: kind,
                owner_token: token,
                generation: number,
                ..
            }
            &&& kind == owner_kind
            &&& token@ == owner_token@
            &&& number == generation
        },
        ownership.verification_request() matches OwnershipStatement::Verify {
            owner_kind: kind,
            owner_token: token,
            generation: number,
        } && kind == owner_kind && token@ == owner_token@ && number == generation,
        ownership.release_request() matches OwnershipStatement::Release {
            owner_kind: kind,
            owner_token: token,
            generation: number,
        } && kind == owner_kind && token@ == owner_token@ && number == generation,
{
}

/// The ownership is granted if and only if the lease can be counted, a row with its number came
/// back and the database with its settings can be read; and it is contended if and only if there
/// was no row.
pub proof fn ownership_is_granted_by_a_row(
    database_url: Seq<char>,
    lease: Span,
    reply: AcquireReply,
    readable: bool,
)
    ensures
        acquire_failure(database_url, lease, reply, readable) is None <==> {
            &&& !text::is_blank(database_url)
            &&& lease.seconds > 0 || lease.nanoseconds > 0
            &&& lease.seconds * 1000 + lease.nanoseconds / 1_000_000 <= i64::MAX
            &&& reply is Generation
            &&& readable
        },
        is_lease(database_url, lease) ==> (acquire_failure(database_url, lease, reply, readable)
            == Some(SingletonOwnershipFailure::Contended) <==> reply is NoRow),
        is_lease(database_url, lease) ==> (acquire_failure(database_url, lease, reply, readable)
            == Some(SingletonOwnershipFailure::Connection) <==> reply is NotConnected),
{
}

} // verus!
