//! Migrations of the database: applied in order, each once, and remembered with a checksum.

use crate::crypto;
use crate::persistence::database::{
    self, digest, LedgerRow, Reply, Statement, Step,
};
use crate::persistence::MIGRATION_LOCK_KEY;
use crate::text;
use vstd::prelude::*;
use vstd::utf8::*;

verus! {

/// How many migrations there are.
pub const MIGRATION_COUNT: usize = 15;

/// A migration: its place in the order, its name and what it runs.
#[derive(Clone, Debug)]
pub struct Migration {
    pub version: i64,
    pub name: &'static str,
    pub sql: String,
}

/// The name of the migration at a place.
pub open spec fn name_at(place: int) -> &'static str {
    if place == 0 {
        "minimum_lifecycle"
    } else if place == 1 {
        "output_retention"
    } else if place == 2 {
        "execution_state"
    } else if place == 3 {
        "reconciliation_state"
    } else if place == 4 {
        "local_backend_registry"
    } else if place == 5 {
        "local_backend_results"
    } else if place == 6 {
        "protocol_session_credentials"
    } else if place == 7 {
        "retained_store_paths"
    } else if place == 8 {
        "shared_builds"
    } else if place == 9 {
        "shared_build_scheduling"
    } else if place == 10 {
        "shared_build_scheduler"
    } else if place == 11 {
        "shared_build_attempts"
    } else if place == 12 {
        "shared_build_authority"
    } else if place == 13 {
        "nomad_callback_nonces"
    } else {
        "shared_build_specification"
    }
}

fn migration_name(place: usize) -> (name: &'static str)
    requires
        place < MIGRATION_COUNT,
    ensures
        name == name_at(place as int),
{
    if place == 0 {
        "minimum_lifecycle"
    } else if place == 1 {
        "output_retention"
    } else if place == 2 {
        "execution_state"
    } else if place == 3 {
        "reconciliation_state"
    } else if place == 4 {
        "local_backend_registry"
    } else if place == 5 {
        "local_backend_results"
    } else if place == 6 {
        "protocol_session_credentials"
    } else if place == 7 {
        "retained_store_paths"
    } else if place == 8 {
        "shared_builds"
    } else if place == 9 {
        "shared_build_scheduling"
    } else if place == 10 {
        "shared_build_scheduler"
    } else if place == 11 {
        "shared_build_attempts"
    } else if place == 12 {
        "shared_build_authority"
    } else if place == 13 {
        "nomad_callback_nonces"
    } else {
        "shared_build_specification"
    }
}

/// Migrations are the known ones with the given texts.
pub open spec fn are_known(migrations: Seq<Migration>, texts: Seq<String>) -> bool {
    &&& migrations.len() == MIGRATION_COUNT
    &&& forall|i: int|
        0 <= i < MIGRATION_COUNT ==> {
            &&& (#[trigger] migrations[i]).version == i + 1
            &&& migrations[i].name == name_at(i)
            &&& migrations[i].sql == texts[i]
        }
}

/// The known migrations, with what they run.
pub fn known_migrations(texts: &Vec<String>) -> (migrations: Vec<Migration>)
    requires
        texts@.len() == MIGRATION_COUNT,
    ensures
        are_known(migrations@, texts@),
{
    let mut migrations: Vec<Migration> = Vec::new();
    let mut i: usize = 0;
    while i < MIGRATION_COUNT
        invariant
            i <= MIGRATION_COUNT,
            texts@.len() == MIGRATION_COUNT,
            migrations@.len() == i,
            forall|j: int|
                0 <= j < i ==> {
                    &&& (#[trigger] migrations@[j]).version == j + 1
                    &&& migrations@[j].name == name_at(j)
                    &&& migrations@[j].sql == texts@[j]
                },
        decreases MIGRATION_COUNT - i,
    {
        migrations.push(
            Migration {
                version: i as i64 + 1,
                name: migration_name(i),
                sql: texts[i].clone(),
            },
        );
        i += 1;
    }
    migrations
}

/// The version that the database has once every known migration is applied.
pub fn latest_migration_version() -> (version: i64)
    ensures
        version == MIGRATION_COUNT,
{
    15
}

/// Why a migration failed.
#[derive(Clone, Copy, Debug, PartialEq, Eq, Structural)]
pub enum MigrationFailure {
    Configuration,
    Connection,
    Lock,
    Ledger,
    Checksum,
    FutureVersion,
    MigrationSql,
    Commit,
}

impl MigrationFailure {
    pub open spec fn name(self) -> Seq<char> {
        match self {
            MigrationFailure::Configuration => "configuration"@,
            MigrationFailure::Connection => "connection"@,
            MigrationFailure::Lock => "lock"@,
            MigrationFailure::Ledger => "ledger"@,
            MigrationFailure::Checksum => "checksum"@,
            MigrationFailure::FutureVersion => "future-version"@,
            MigrationFailure::MigrationSql => "migration-sql"@,
            MigrationFailure::Commit => "commit"@,
        }
    }

    pub fn as_str(self) -> (name: &'static str)
        ensures
            name@ == self.name(),
    {
        match self {
            MigrationFailure::Configuration => "configuration",
            MigrationFailure::Connection => "connection",
            MigrationFailure::Lock => "lock",
            MigrationFailure::Ledger => "ledger",
            MigrationFailure::Checksum => "checksum",
            MigrationFailure::FutureVersion => "future-version",
            MigrationFailure::MigrationSql => "migration-sql",
            MigrationFailure::Commit => "commit",
        }
    }
}

/// A failure of a migration.
#[derive(Clone, Copy, Debug, PartialEq, Eq, Structural)]
pub struct MigrationError(pub MigrationFailure);

impl MigrationError {
    pub fn failure(&self) -> (failure: MigrationFailure)
        ensures
            failure == self.0,
    {
        self.0
    }

    pub fn message(&self) -> (message: &'static str)
        ensures
            message@ == "database migration failed"@,
    {
        "database migration failed"
    }
}

/// What a run did.
#[derive(Clone, Copy, Debug, PartialEq, Eq, Structural)]
pub struct MigrationOutcome {
    pub previously_applied: usize,
    pub applied_this_run: usize,
    pub resulting_version: i64,
}

/// Migrations have positive, rising versions, and names that are not empty and all different.
pub open spec fn are_valid(migrations: Seq<Migration>) -> bool {
    &&& forall|i: int|
        0 <= i < migrations.len() ==> (#[trigger] migrations[i]).version > 0
            && migrations[i].name@.len() > 0
    &&& forall|i: int, j: int|
        0 <= i < j < migrations.len() ==> (#[trigger] migrations[i]).version < (
        #[trigger] migrations[j]).version && migrations[i].name@ != migrations[j].name@
}

/// Tells valid migrations from others.
pub fn validate_migrations(migrations: &Vec<Migration>) -> (result: Result<(), MigrationFailure>)
    ensures
        result == if are_valid(migrations@) {
            Ok::<(), MigrationFailure>(())
        } else {
            Err::<(), MigrationFailure>(MigrationFailure::Configuration)
        },
{
    let mut prior: i64 = 0;
    let mut i: usize = 0;
    while i < migrations.len()
        invariant
            i <= migrations@.len(),
            prior >= 0,
            i > 0 ==> prior == migrations@[i - 1].version,
            i == 0 ==> prior == 0,
            forall|k: int|
                0 <= k < i ==> (#[trigger] migrations@[k]).version > 0
                    && migrations@[k].name@.len() > 0 && migrations@[k].version <= prior,
            forall|k: int, l: int|
                0 <= k < l < i ==> (#[trigger] migrations@[k]).version < (
                #[trigger] migrations@[l]).version && migrations@[k].name@ != migrations@[l].name@,
        decreases migrations@.len() - i,
    {
        if migrations[i].version <= prior || migrations[i].name.is_empty() {
            assert(i > 0 ==> migrations@[i - 1].version == prior);
            assert(migrations@[i as int].version <= prior || migrations@[i as int].name@.len() == 0);
            return Err(MigrationFailure::Configuration);
        }
        let mut j: usize = 0;
        while j < i
            invariant
                j <= i,
                i < migrations@.len(),
                forall|k: int|
                    0 <= k < j ==> (#[trigger] migrations@[k]).name@ != migrations@[i as int].name@,
            decreases i - j,
        {
            if text::same_text(migrations[j].name, migrations[i].name) {
                assert(migrations@[j as int].name@ == migrations@[i as int].name@);
                return Err(MigrationFailure::Configuration);
            }
            j += 1;
        }
        prior = migrations[i].version;
        i += 1;
    }
    Ok(())
}

/// The checksum of what a migration runs.
pub open spec fn checksum_of(sql: Seq<char>) -> Seq<u8> {
    crypto::sha256_of(encode_utf8(sql))
}

fn checksum(sql: &str) -> (bytes: Vec<u8>)
    ensures
        bytes@ == checksum_of(sql@),
        bytes@.len() == 32,
{
    crypto::sha256(sql.as_bytes())
}

/// What is wrong with a ledger from a place on, if anything is: it has to begin like the list of
/// migrations, with the same checksums.
pub open spec fn ledger_fault(
    rows: Seq<LedgerRow>,
    migrations: Seq<Migration>,
    place: nat,
) -> Option<MigrationFailure>
    decreases rows.len() - place,
{
    if place >= rows.len() {
        None
    } else if place >= migrations.len() {
        Some(MigrationFailure::FutureVersion)
    } else if rows[place as int].version != migrations[place as int].version
        || rows[place as int].name@ != migrations[place as int].name@ {
        Some(MigrationFailure::Ledger)
    } else if rows[place as int].checksum@ != checksum_of(migrations[place as int].sql@) {
        Some(MigrationFailure::Checksum)
    } else {
        ledger_fault(rows, migrations, place + 1)
    }
}

fn check_ledger(rows: &Vec<LedgerRow>, migrations: &Vec<Migration>) -> (fault: Option<
    MigrationFailure,
>)
    ensures
        fault == ledger_fault(rows@, migrations@, 0),
        fault is None ==> rows@.len() <= migrations@.len(),
{
    let mut i: usize = 0;
    while i < rows.len()
        invariant
            i <= rows@.len(),
            i <= migrations@.len(),
            ledger_fault(rows@, migrations@, 0) == ledger_fault(rows@, migrations@, i as nat),
        decreases rows@.len() - i,
    {
        if i >= migrations.len() {
            return Some(MigrationFailure::FutureVersion);
        }
        if rows[i].version != migrations[i].version || !text::same_text(
            rows[i].name.as_str(),
            migrations[i].name,
        ) {
            return Some(MigrationFailure::Ledger);
        }
        let expected = checksum(migrations[i].sql.as_str());
        if !text::same_bytes(rows[i].checksum.as_slice(), expected.as_slice()) {
            return Some(MigrationFailure::Checksum);
        }
        i += 1;
    }
    None
}

pub open spec fn failed(failure: MigrationFailure) -> Step<MigrationOutcome, MigrationError> {
    Step::Finish(Err(MigrationError(failure)))
}

fn fail(failure: MigrationFailure) -> (step: Step<MigrationOutcome, MigrationError>)
    ensures
        step == failed(failure),
{
    Step::Finish(Err(MigrationError(failure)))
}

/// The version that migrations lead to.
pub open spec fn version_after(migrations: Seq<Migration>) -> i64 {
    if migrations.len() == 0 {
        0
    } else {
        migrations.last().version
    }
}

/// How migrations are applied from one of them on: each is run, and then recorded.
pub open spec fn applying_step(
    migrations: Seq<Migration>,
    previously_applied: nat,
    next: nat,
    place: int,
    history: Seq<Reply>,
) -> Step<MigrationOutcome, MigrationError>
    decreases migrations.len() - next,
{
    if next >= migrations.len() {
        database::committed(
            history,
            place,
            MigrationOutcome {
                previously_applied: previously_applied as usize,
                applied_this_run: (migrations.len() - previously_applied) as usize,
                resulting_version: version_after(migrations),
            },
            MigrationError(MigrationFailure::Commit),
        )
    } else if history.len() <= place {
        Step::Perform(Statement::RunMigration { sql: migrations[next as int].sql })
    } else if history[place] !is Done {
        failed(MigrationFailure::MigrationSql)
    } else if history.len() == place + 1 {
        Step::Perform(
            Statement::RecordMigration {
                version: migrations[next as int].version,
                name: migrations[next as int].name,
                checksum: database::digest_of(checksum_of(migrations[next as int].sql@)),
            },
        )
    } else if history[place + 1] !is Changed {
        failed(MigrationFailure::Ledger)
    } else {
        applying_step(migrations, previously_applied, next + 1, place + 2, history)
    }
}

fn apply_migrations(migrations: &Vec<Migration>, previously_applied: usize, history: &Vec<Reply>) -> (
step: Step<MigrationOutcome, MigrationError>)
    requires
        previously_applied <= migrations@.len(),
        history@.len() >= 4,
    ensures
        step == applying_step(
            migrations@,
            previously_applied as nat,
            previously_applied as nat,
            4,
            history@,
        ),
{
    let total: usize = migrations.len();
    let length: usize = history.len();
    let mut next: usize = previously_applied;
    let mut place: usize = 4;
    while next < total
        invariant
            previously_applied <= next <= total,
            total == migrations@.len(),
            length == history@.len(),
            place <= length,
            applying_step(
                migrations@,
                previously_applied as nat,
                previously_applied as nat,
                4,
                history@,
            ) == applying_step(
                migrations@,
                previously_applied as nat,
                next as nat,
                place as int,
                history@,
            ),
        decreases total - next,
    {
        if length <= place {
            return Step::Perform(Statement::RunMigration { sql: migrations[next].sql.clone() });
        }
        match &history[place] {
            Reply::Done => {},
            _ => {
                return fail(MigrationFailure::MigrationSql);
            },
        }
        if length == place + 1 {
            let bytes = checksum(migrations[next].sql.as_str());
            return match digest(bytes.as_slice()) {
                Some(checksum) => Step::Perform(
                    Statement::RecordMigration {
                        version: migrations[next].version,
                        name: migrations[next].name,
                        checksum,
                    },
                ),
                None => fail(MigrationFailure::Ledger),
            };
        }
        match &history[place + 1] {
            Reply::Changed(_) => {},
            _ => {
                return fail(MigrationFailure::Ledger);
            },
        }
        next += 1;
        place += 2;
    }
    let resulting_version: i64 = if total == 0 {
        0
    } else {
        migrations[total - 1].version
    };
    database::commit(
        history,
        place,
        MigrationOutcome {
            previously_applied,
            applied_this_run: total - previously_applied,
            resulting_version,
        },
        MigrationError(MigrationFailure::Commit),
    )
}

/// How migrations run: under their lock and in one transaction, those that the ledger does not
/// have yet are applied.
pub open spec fn migrate_step(
    database_url: Seq<char>,
    migrations: Seq<Migration>,
    history: Seq<Reply>,
) -> Step<MigrationOutcome, MigrationError> {
    if text::is_blank(database_url) || !are_valid(migrations) {
        failed(MigrationFailure::Configuration)
    } else if let Some(step) = database::begun(
        history,
        MigrationError(MigrationFailure::Connection),
    ) {
        step
    } else if history.len() == 1 {
        Step::Perform(Statement::LockMigrations { key: MIGRATION_LOCK_KEY })
    } else if history[1] !is Done {
        failed(MigrationFailure::Lock)
    } else if history.len() == 2 {
        Step::Perform(Statement::CreateLedger)
    } else if history[2] !is Done {
        failed(MigrationFailure::Ledger)
    } else if history.len() == 3 {
        Step::Perform(Statement::ReadLedger)
    } else {
        match history[3] {
            Reply::Ledger(rows) => match ledger_fault(rows@, migrations, 0) {
                Some(failure) => failed(failure),
                None => applying_step(migrations, rows@.len(), rows@.len(), 4, history),
            },
            _ => failed(MigrationFailure::Ledger),
        }
    }
}

/// Applies those of a list of migrations that are not applied yet.
pub fn migrate_list(database_url: &str, migrations: &Vec<Migration>, history: &Vec<Reply>) -> (step:
    Step<MigrationOutcome, MigrationError>)
    ensures
        step == migrate_step(database_url@, migrations@, history@),
{
    if text::blank(database_url) {
        return fail(MigrationFailure::Configuration);
    }
    if let Err(failure) = validate_migrations(migrations) {
        return fail(failure);
    }
    if let Some(step) = database::begin(
        history,
        MigrationError(MigrationFailure::Connection),
    ) {
        return step;
    }
    run_migrations(migrations, history)
}

fn run_migrations(migrations: &Vec<Migration>, history: &Vec<Reply>) -> (step: Step<
    MigrationOutcome,
    MigrationError,
>)
    requires
        are_valid(migrations@),
        history@.len() >= 1,
        history@[0] is Done,
    ensures
        forall|database_url: Seq<char>|
            !text::is_blank(database_url) ==> step == #[trigger] migrate_step(
                database_url,
                migrations@,
                history@,
            ),
{
    if history.len() == 1 {
        return Step::Perform(Statement::LockMigrations { key: MIGRATION_LOCK_KEY });
    }
    match &history[1] {
        Reply::Done => {},
        _ => {
            return fail(MigrationFailure::Lock);
        },
    }
    if history.len() == 2 {
        return Step::Perform(Statement::CreateLedger);
    }
    match &history[2] {
        Reply::Done => {},
        _ => {
            return fail(MigrationFailure::Ledger);
        },
    }
    if history.len() == 3 {
        return Step::Perform(Statement::ReadLedger);
    }
    let rows = match &history[3] {
        Reply::Ledger(rows) => rows,
        _ => {
            return fail(MigrationFailure::Ledger);
        },
    };
    match check_ledger(rows, migrations) {
        Some(failure) => fail(failure),
        None => apply_migrations(migrations, rows.len(), history),
    }
}

/// Applies the known migrations, with what they run, that are not applied yet.
pub fn migrate(database_url: &str, texts: &Vec<String>, history: &Vec<Reply>) -> (step: Step<
    MigrationOutcome,
    MigrationError,
>)
    requires
        texts@.len() == MIGRATION_COUNT,
    ensures
        exists|migrations: Seq<Migration>|
            are_known(migrations, texts@) && step == #[trigger] migrate_step(
                database_url@,
                migrations,
                history@,
            ),
{
    let migrations = known_migrations(texts);
    migrate_list(database_url, &migrations, history)
}

/// A run ends well only where the ledger began like the list and everything after it was applied.
pub proof fn migrations_are_applied_in_order(
    database_url: Seq<char>,
    migrations: Seq<Migration>,
    history: Seq<Reply>,
    outcome: MigrationOutcome,
)
    requires
        migrations.len() <= usize::MAX,
        migrate_step(database_url, migrations, history) == Step::<
            MigrationOutcome,
            MigrationError,
        >::Finish(Ok(outcome)),
    ensures
        outcome.previously_applied + outcome.applied_this_run == migrations.len(),
        outcome.resulting_version == version_after(migrations),
        history[3] matches Reply::Ledger(rows) && rows@.len() == outcome.previously_applied
            && forall|i: int|
            0 <= i < rows@.len() ==> {
                &&& (#[trigger] rows@[i]).version == migrations[i].version
                &&& rows@[i].name@ == migrations[i].name@
                &&& rows@[i].checksum@ == checksum_of(migrations[i].sql@)
            },
{
    let rows = history[3]->Ledger_0@;
    ledger_is_prefix(rows, migrations, 0);
    applying_ends_with_all(migrations, rows.len(), rows.len(), 4, history, outcome);
}

pub proof fn ledger_is_prefix(rows: Seq<LedgerRow>, migrations: Seq<Migration>, place: nat)
    requires
        ledger_fault(rows, migrations, place) is None,
        place <= rows.len(),
        place <= migrations.len(),
    ensures
        rows.len() <= migrations.len(),
        forall|i: int|
            place <= i < rows.len() ==> {
                &&& (#[trigger] rows[i]).version == migrations[i].version
                &&& rows[i].name@ == migrations[i].name@
                &&& rows[i].checksum@ == checksum_of(migrations[i].sql@)
            },
    decreases rows.len() - place,
{
    if place < rows.len() {
        ledger_is_prefix(rows, migrations, place + 1);
    }
}

proof fn applying_ends_with_all(
    migrations: Seq<Migration>,
    previously_applied: nat,
    next: nat,
    place: int,
    history: Seq<Reply>,
    outcome: MigrationOutcome,
)
    requires
        previously_applied <= next <= migrations.len() <= usize::MAX,
        applying_step(migrations, previously_applied, next, place, history) == Step::<
            MigrationOutcome,
            MigrationError,
        >::Finish(Ok(outcome)),
    ensures
        outcome.previously_applied == previously_applied,
        outcome.applied_this_run == migrations.len() - previously_applied,
        outcome.resulting_version == version_after(migrations),
    decreases migrations.len() - next,
{
    if next < migrations.len() {
        applying_ends_with_all(
            migrations,
            previously_applied,
            next + 1,
            place + 2,
            history,
            outcome,
        );
    }
}

/// The known migrations are valid, whatever they run.
pub proof fn known_migrations_are_valid(migrations: Seq<Migration>, texts: Seq<String>)
    requires
        are_known(migrations, texts),
    ensures
        are_valid(migrations),
{
    reveal_strlit("minimum_lifecycle");
    reveal_strlit("output_retention");
    reveal_strlit("execution_state");
    reveal_strlit("reconciliation_state");
    reveal_strlit("local_backend_registry");
    reveal_strlit("local_backend_results");
    reveal_strlit("protocol_session_credentials");
    reveal_strlit("retained_store_paths");
    reveal_strlit("shared_builds");
    reveal_strlit("shared_build_scheduling");
    reveal_strlit("shared_build_scheduler");
    reveal_strlit("shared_build_attempts");
    reveal_strlit("shared_build_authority");
    reveal_strlit("nomad_callback_nonces");
    reveal_strlit("shared_build_specification");
    assert forall|i: int| 0 <= i < migrations.len() implies (#[trigger] migrations[i]).version > 0
        && migrations[i].name@.len() > 0 by {
        assert(name_at(i)@.len() > 0);
    }
    assert forall|i: int, j: int| 0 <= i < j < migrations.len() implies (
    #[trigger] migrations[i]).version < (#[trigger] migrations[j]).version && migrations[i].name@
        != migrations[j].name@ by {
        assert(name_at(i)@.len() != name_at(j)@.len() || name_at(i)@[0] != name_at(j)@[0]
            || name_at(i)@[2] != name_at(j)@[2] || name_at(i)@[13] != name_at(j)@[13]);
    }
}

} // verus!
