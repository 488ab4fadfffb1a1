//! Migrations on the rows of their ledger.

use crate::crypto;
use crate::persistence::database::{self, LedgerRow, Reply, Statement, Step};
use crate::persistence::migrations::{
    self, Migration, MigrationError, MigrationOutcome, MIGRATION_COUNT,
};
use crate::persistence::rows::{self, end_is_reached, next_is_done};
use crate::text;
use vstd::prelude::*;
use vstd::utf8::*;

verus! {

/// What statements do to the ledger, whose rows come in the order of their versions.
pub open spec fn ledger_changes(
    before: Seq<LedgerRow>,
    statement: Statement,
    reply: Reply,
    after: Seq<LedgerRow>,
) -> bool {
    match statement {
        Statement::ReadLedger => after == before && match reply {
            Reply::Ledger(read) => read@ == before,
            _ => false,
        },
        Statement::RecordMigration { version, name, checksum } => (forall|i: int|
            0 <= i < before.len() ==> (#[trigger] before[i]).version < version) ==> {
            &&& reply is Changed
            &&& after.len() == before.len() + 1
            &&& after.drop_last() == before
            &&& after.last().version == version
            &&& after.last().name@ == name@
            &&& after.last().checksum@ == checksum@
        },
        _ => reply is Done && after == before,
    }
}

/// The model of the ledger.
pub open spec fn on_ledger() -> spec_fn(Seq<LedgerRow>, Statement, Reply, Seq<LedgerRow>) -> bool {
    |before: Seq<LedgerRow>, statement: Statement, reply: Reply, after: Seq<LedgerRow>|
        ledger_changes(before, statement, reply, after)
}

/// The migration of a database.
pub open spec fn migrating(database_url: Seq<char>, listed: Seq<Migration>) -> spec_fn(
    Seq<Reply>,
) -> Step<MigrationOutcome, MigrationError> {
    |history: Seq<Reply>| migrations::migrate_step(database_url, listed, history)
}

/// The ledger records the first so many migrations.
pub open spec fn records(ledger: Seq<LedgerRow>, listed: Seq<Migration>, count: nat) -> bool {
    &&& ledger.len() == count
    &&& count <= listed.len()
    &&& forall|i: int|
        0 <= i < count ==> {
            &&& (#[trigger] ledger[i]).version == listed[i].version
            &&& ledger[i].name@ == listed[i].name@
            &&& ledger[i].checksum@ == migrations::checksum_of(listed[i].sql@)
        }
}

proof fn records_have_no_fault(ledger: Seq<LedgerRow>, listed: Seq<Migration>, place: nat)
    requires
        records(ledger, listed, ledger.len()),
        place <= ledger.len(),
    ensures
        migrations::ledger_fault(ledger, listed, place) is None,
    decreases ledger.len() - place,
{
    if place < ledger.len() {
        records_have_no_fault(ledger, listed, place + 1);
    }
}

proof fn rest_is_applied(
    database_url: Seq<char>,
    listed: Seq<Migration>,
    ledgers: Seq<Seq<LedgerRow>>,
    history: Seq<Reply>,
    first: nat,
    next: nat,
    place: int,
)
    requires
        migrations::are_valid(listed),
        rows::ran(migrating(database_url, listed), on_ledger(), ledgers, history),
        first <= next <= listed.len() <= usize::MAX,
        4 <= place <= history.len(),
        records(ledgers[place], listed, next),
        forall|i: int|
            place <= i <= history.len() ==> migrations::migrate_step(
                database_url,
                listed,
                #[trigger] history.take(i),
            ) == migrations::applying_step(listed, first, next, place, history.take(i)),
    ensures
        migrations::migrate_step(database_url, listed, history) == Step::<
            MigrationOutcome,
            MigrationError,
        >::Finish(
            Ok(
                MigrationOutcome {
                    previously_applied: first as usize,
                    applied_this_run: (listed.len() - first) as usize,
                    resulting_version: migrations::version_after(listed),
                },
            ),
        ),
        records(ledgers.last(), listed, listed.len()),
    decreases listed.len() - next,
{
    let operation = migrating(database_url, listed);
    next_is_done(operation, on_ledger(), ledgers, history, place);
    if next < listed.len() {
        next_is_done(operation, on_ledger(), ledgers, history, place + 1);
        database::digest_is_kept(crypto::sha256_array(encode_utf8(listed[next as int].sql@)));
        assert(forall|i: int|
            0 <= i < ledgers[place].len() ==> (#[trigger] ledgers[place][i]).version
                < listed[next as int].version);
        assert forall|i: int| 0 <= i < next + 1 implies {
            &&& (#[trigger] ledgers[place + 2][i]).version == listed[i].version
            &&& ledgers[place + 2][i].name@ == listed[i].name@
            &&& ledgers[place + 2][i].checksum@ == migrations::checksum_of(listed[i].sql@)
        } by {
            if i < next {
                assert(ledgers[place + 2].drop_last()[i] == ledgers[place][i]);
            }
        }
        rest_is_applied(database_url, listed, ledgers, history, first, next + 1, place + 2);
    } else {
        end_is_reached(operation, on_ledger(), ledgers, history, place + 1);
    }
}

proof fn ledger_is_completed(
    database_url: Seq<char>,
    listed: Seq<Migration>,
    ledgers: Seq<Seq<LedgerRow>>,
    history: Seq<Reply>,
)
    requires
        !text::is_blank(database_url),
        migrations::are_valid(listed),
        listed.len() <= usize::MAX,
        rows::ran(migrating(database_url, listed), on_ledger(), ledgers, history),
        migrations::ledger_fault(ledgers[0], listed, 0) is None,
    ensures
        migrations::migrate_step(database_url, listed, history) == Step::<
            MigrationOutcome,
            MigrationError,
        >::Finish(
            Ok(
                MigrationOutcome {
                    previously_applied: ledgers[0].len() as usize,
                    applied_this_run: (listed.len() - ledgers[0].len()) as usize,
                    resulting_version: migrations::version_after(listed),
                },
            ),
        ),
        records(ledgers.last(), listed, listed.len()),
        ledgers[0].len() <= listed.len(),
        ledgers[0].len() == listed.len() ==> history.len() == 5 && ledgers.last() == ledgers[0],
{
    let operation = migrating(database_url, listed);
    next_is_done(operation, on_ledger(), ledgers, history, 0);
    next_is_done(operation, on_ledger(), ledgers, history, 1);
    next_is_done(operation, on_ledger(), ledgers, history, 2);
    next_is_done(operation, on_ledger(), ledgers, history, 3);
    migrations::ledger_is_prefix(ledgers[0], listed, 0);
    let first = ledgers[0].len();
    rest_is_applied(database_url, listed, ledgers, history, first, first, 4);
    if first == listed.len() {
        next_is_done(operation, on_ledger(), ledgers, history, 4);
        end_is_reached(operation, on_ledger(), ledgers, history, 5);
    }
}

/// Once a database is migrated, migrating it again applies nothing: all that was applied before
/// and by the first run is found applied, the version stays, and so does the ledger.
pub proof fn migrating_again_applies_nothing(
    database_url: Seq<char>,
    listed: Seq<Migration>,
    ledgers: Seq<Seq<LedgerRow>>,
    history: Seq<Reply>,
    first: MigrationOutcome,
    later_ledgers: Seq<Seq<LedgerRow>>,
    later_history: Seq<Reply>,
)
    requires
        listed.len() <= usize::MAX,
        rows::ran(migrating(database_url, listed), on_ledger(), ledgers, history),
        migrations::migrate_step(database_url, listed, history) == Step::<
            MigrationOutcome,
            MigrationError,
        >::Finish(Ok(first)),
        rows::ran(migrating(database_url, listed), on_ledger(), later_ledgers, later_history),
        later_ledgers[0] == ledgers.last(),
    ensures
        migrations::migrate_step(database_url, listed, later_history) matches Step::Finish(
            Ok(second),
        ) && {
            &&& second.applied_this_run == 0
            &&& second.previously_applied == first.previously_applied + first.applied_this_run
            &&& second.resulting_version == first.resulting_version
            &&& first.resulting_version == migrations::version_after(listed)
        },
        later_ledgers.last() == later_ledgers[0],
{
    let operation = migrating(database_url, listed);
    next_is_done(operation, on_ledger(), ledgers, history, 0);
    next_is_done(operation, on_ledger(), ledgers, history, 1);
    next_is_done(operation, on_ledger(), ledgers, history, 2);
    next_is_done(operation, on_ledger(), ledgers, history, 3);
    ledger_is_completed(database_url, listed, ledgers, history);
    records_have_no_fault(ledgers.last(), listed, 0);
    ledger_is_completed(database_url, listed, later_ledgers, later_history);
}

/// The version that the known migrations lead to is the latest one.
pub proof fn known_migrations_lead_to_the_latest_version(
    listed: Seq<Migration>,
    texts: Seq<String>,
)
    requires
        migrations::are_known(listed, texts),
    ensures
        migrations::version_after(listed) == MIGRATION_COUNT,
{
}

} // verus!
