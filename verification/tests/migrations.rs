use telchar::persistence::database::{LedgerRow, Reply, Statement, Step};
use telchar::persistence::migrations::{
    known_migrations, latest_migration_version, migrate, migrate_list, validate_migrations,
    Migration, MigrationError, MigrationFailure, MigrationOutcome, MIGRATION_COUNT,
};

fn migration(version: i64, name: &'static str, sql: &str) -> Migration {
    Migration {
        version,
        name,
        sql: sql.to_string(),
    }
}

fn texts() -> Vec<String> {
    (1..=MIGRATION_COUNT).map(|place| format!("SELECT {place}")).collect()
}

fn invalid_lists() -> Vec<Vec<Migration>> {
    vec![
        vec![migration(1, "one", "SELECT 1"), migration(1, "two", "SELECT 2")],
        vec![migration(1, "", "SELECT 1")],
        vec![migration(2, "two", "SELECT 2"), migration(1, "one", "SELECT 1")],
        vec![migration(1, "same", "SELECT 1"), migration(2, "same", "SELECT 2")],
    ]
}

fn failure(step: Step<MigrationOutcome, MigrationError>) -> MigrationFailure {
    match step {
        Step::Finish(Err(error)) => error.failure(),
        other => panic!("no failure: {other:?}"),
    }
}

fn up_to_ledger(rows: Vec<LedgerRow>) -> Vec<Reply> {
    vec![Reply::Done, Reply::Done, Reply::Done, Reply::Ledger(rows)]
}

#[test]
fn persistence_migration_metadata_is_valid() {
    assert!(validate_migrations(&known_migrations(&texts())).is_ok());
}

#[test]
fn migrations_migration_metadata_is_valid() {
    assert!(validate_migrations(&known_migrations(&texts())).is_ok());
    assert_eq!(latest_migration_version(), 15);
}

#[test]
fn persistence_invalid_migration_metadata_fails_closed() {
    for migrations in invalid_lists() {
        assert_eq!(
            validate_migrations(&migrations),
            Err(MigrationFailure::Configuration)
        );
    }
}

#[test]
fn migrations_invalid_migration_metadata_fails_closed() {
    for migrations in invalid_lists() {
        assert_eq!(
            validate_migrations(&migrations),
            Err(MigrationFailure::Configuration)
        );
        assert_eq!(
            failure(migrate_list("postgres://x", &migrations, &vec![])),
            MigrationFailure::Configuration
        );
    }
}

/// Two migrations of which the second cannot be run: nothing is ever committed.
fn failing_second() {
    let sql = "CREATE TABLE migration_rollback_proof (value integer)";
    let migrations = vec![migration(1, "first", sql), migration(2, "fails", sql)];
    let mut history = up_to_ledger(vec![]);
    let run = migrate_list("postgres://x", &migrations, &history);
    assert!(matches!(run, Step::Perform(Statement::RunMigration { ref sql }) if sql.contains("rollback_proof")));
    history.push(Reply::Done);
    match migrate_list("postgres://x", &migrations, &history) {
        Step::Perform(Statement::RecordMigration { version, name, checksum }) => {
            assert_eq!((version, name), (1, "first"));
            assert_ne!(checksum, [0; 32]);
        }
        other => panic!("{other:?}"),
    }
    history.push(Reply::Changed(1));
    assert!(matches!(
        migrate_list("postgres://x", &migrations, &history),
        Step::Perform(Statement::RunMigration { .. })
    ));
    history.push(Reply::Failed(telchar::persistence::database::DatabaseFault::Other));
    assert_eq!(
        failure(migrate_list("postgres://x", &migrations, &history)),
        MigrationFailure::MigrationSql
    );
}

#[test]
fn persistence_failed_pending_migration_rolls_back_schema_and_ledger() {
    failing_second();
}

#[test]
fn migrations_failed_pending_migration_rolls_back_schema_and_ledger() {
    failing_second();
}

#[test]
fn migrations_run_under_the_lock_and_in_order() {
    let texts = texts();
    let url = "postgres://x";
    assert_eq!(failure(migrate("  ", &texts, &vec![])), MigrationFailure::Configuration);
    assert!(matches!(migrate(url, &texts, &vec![]), Step::Perform(Statement::Begin)));
    assert_eq!(
        failure(migrate(url, &texts, &vec![Reply::Count(0)])),
        MigrationFailure::Connection
    );
    assert!(matches!(
        migrate(url, &texts, &vec![Reply::Done]),
        Step::Perform(Statement::LockMigrations { key: 0x5445_4c43_4841_5201 })
    ));
    assert_eq!(
        failure(migrate(url, &texts, &vec![Reply::Done, Reply::Count(1)])),
        MigrationFailure::Lock
    );
    assert_eq!(
        failure(migrate(url, &texts, &vec![Reply::Done, Reply::Done, Reply::Count(1)])),
        MigrationFailure::Ledger
    );
}

#[test]
fn ledger_has_to_begin_like_the_list() {
    let migrations = vec![migration(1, "one", "abc")];
    let url = "postgres://x";
    // The digest of "abc".
    let checksum = vec![
        0xba, 0x78, 0x16, 0xbf, 0x8f, 0x01, 0xcf, 0xea, 0x41, 0x41, 0x40, 0xde, 0x5d, 0xae, 0x22,
        0x23, 0xb0, 0x03, 0x61, 0xa3, 0x96, 0x17, 0x7a, 0x9c, 0xb4, 0x10, 0xff, 0x61, 0xf2, 0x00,
        0x15, 0xad,
    ];
    let row = |version: i64, name: &str, checksum: &Vec<u8>| LedgerRow {
        version,
        name: name.to_string(),
        checksum: checksum.clone(),
    };
    let applied = up_to_ledger(vec![row(1, "one", &checksum)]);
    assert!(matches!(migrate_list(url, &migrations, &applied), Step::Perform(Statement::Commit)));
    let mut ended = applied;
    ended.push(Reply::Done);
    match migrate_list(url, &migrations, &ended) {
        Step::Finish(Ok(outcome)) => assert_eq!(
            outcome,
            MigrationOutcome {
                previously_applied: 1,
                applied_this_run: 0,
                resulting_version: 1
            }
        ),
        other => panic!("{other:?}"),
    }
    ended.pop();
    ended.push(Reply::Count(0));
    assert_eq!(failure(migrate_list(url, &migrations, &ended)), MigrationFailure::Commit);
    let renamed = up_to_ledger(vec![row(1, "two", &checksum)]);
    assert_eq!(failure(migrate_list(url, &migrations, &renamed)), MigrationFailure::Ledger);
    let changed = up_to_ledger(vec![row(1, "one", &vec![0; 32])]);
    assert_eq!(failure(migrate_list(url, &migrations, &changed)), MigrationFailure::Checksum);
    let newer = up_to_ledger(vec![row(1, "one", &checksum), row(2, "two", &checksum)]);
    assert_eq!(failure(migrate_list(url, &migrations, &newer)), MigrationFailure::FutureVersion);
    assert_eq!(MigrationFailure::FutureVersion.as_str(), "future-version");
}
