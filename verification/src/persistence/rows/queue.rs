//! The queue of shared builds on its rows: who comes later waits behind, and no subject has more
//! builds waiting or running than it may.

use crate::persistence::database::{QueueEntryRow, Reply, Statement, Step};
use crate::persistence::rows::{self, end_is_reached, next_is_done};
use crate::persistence::shared_builds::{
    self, SharedBuild, SharedBuildError, SharedBuildFailure, SharedBuildQueueEntry,
    SharedBuildRules,
};
use crate::text;
use vstd::prelude::*;

verus! {

/// A build as far as it tells of the queue: its state, the subject that it is for and its place.
pub struct Place {
    pub state: Seq<char>,
    pub quota_subject: Option<Seq<char>>,
    pub queue_position: int,
}

impl Place {
    /// The build waits in the queue.
    pub open spec fn is_queued(self) -> bool {
        self.state == "claimed"@ && self.quota_subject is Some
    }
}

/// The builds under their derivations, the place that is given next, and the subject whose build
/// was let in last.
pub struct QueueRows {
    pub builds: Map<Seq<char>, Place>,
    pub next_position: int,
    pub last_subject: Option<Seq<char>>,
}

impl QueueRows {
    /// There are only so many builds, and each that waits is at a place that was given.
    pub open spec fn well_formed(self) -> bool {
        &&& self.builds.dom().finite()
        &&& forall|path: Seq<char>| #[trigger]
            self.builds.contains_key(path) && self.builds[path].is_queued()
                ==> self.builds[path].queue_position < self.next_position
    }

    /// What waits can be read: it has a derivation, a subject and a place.
    pub open spec fn readable(self) -> bool {
        forall|path: Seq<char>| #[trigger]
            self.builds.contains_key(path) && self.builds[path].is_queued() ==> path.len() > 0
                && self.builds[path].quota_subject->0.len() > 0 && self.builds[path].queue_position
                > 0
    }

    /// A build of a subject waits.
    pub open spec fn waits(self, subject: Seq<char>) -> bool {
        exists|path: Seq<char>| #[trigger] self.waits_at(path, subject)
    }

    /// A build waits for a subject.
    pub open spec fn waits_at(self, path: Seq<char>, subject: Seq<char>) -> bool {
        self.builds.contains_key(path) && self.builds[path].state == "claimed"@
            && self.builds[path].quota_subject == Some(subject)
    }

    /// A build is the one of its subject that waited longest.
    pub open spec fn is_first_of(self, path: Seq<char>, subject: Seq<char>) -> bool {
        self.waits_at(path, subject) && forall|other: Seq<char>| #[trigger]
            self.waits_at(other, subject) ==> self.builds[path].queue_position
                <= self.builds[other].queue_position
    }

    /// The builds of a subject that wait.
    pub open spec fn queued(self, subject: Seq<char>) -> Set<Seq<char>> {
        self.builds.dom().filter(
            |path: Seq<char>|
                self.builds[path].state == "claimed"@ && self.builds[path].quota_subject == Some(
                    subject,
                ),
        )
    }

    /// The builds of a subject that run or whose outputs are collected.
    pub open spec fn active(self, subject: Seq<char>) -> Set<Seq<char>> {
        self.builds.dom().filter(
            |path: Seq<char>|
                (self.builds[path].state == "running"@ || self.builds[path].state
                    == "collecting"@) && self.builds[path].quota_subject == Some(subject),
        )
    }
}

/// A row is that of a build that waits.
pub open spec fn is_entry(row: QueueEntryRow, builds: Map<Seq<char>, Place>) -> bool {
    let path = row.derivation_path@;
    &&& builds.contains_key(path)
    &&& builds[path].is_queued()
    &&& builds[path].quota_subject == Some(row.quota_subject@)
    &&& builds[path].queue_position == row.queue_position
}

/// Rows are those of the builds that waited longest, in their order and at most so many.
pub open spec fn are_first(
    listed: Seq<QueueEntryRow>,
    builds: Map<Seq<char>, Place>,
    maximum_rows: i64,
) -> bool {
    &&& listed.len() <= maximum_rows
    &&& forall|i: int| 0 <= i < listed.len() ==> is_entry(#[trigger] listed[i], builds)
    &&& forall|i: int, j: int|
        0 <= i < j < listed.len() ==> (#[trigger] listed[i]).queue_position <= (
        #[trigger] listed[j]).queue_position
    &&& forall|path: Seq<char>| #[trigger]
        builds.contains_key(path) && builds[path].is_queued() ==> (exists|i: int|
            0 <= i < listed.len() && (#[trigger] listed[i]).derivation_path@ == path) || (
        listed.len() == maximum_rows && forall|i: int|
            0 <= i < listed.len() ==> (#[trigger] listed[i]).queue_position
                <= builds[path].queue_position)
}

/// Rows are the first builds of subjects, each of another subject and at most so many: of every
/// subject that waits, unless there are as many as may be read.
pub open spec fn are_first_of_subjects(
    listed: Seq<QueueEntryRow>,
    table: QueueRows,
    maximum_rows: i64,
) -> bool {
    &&& listed.len() <= maximum_rows
    &&& forall|i: int|
        0 <= i < listed.len() ==> is_entry(#[trigger] listed[i], table.builds)
            && table.is_first_of(listed[i].derivation_path@, listed[i].quota_subject@)
    &&& forall|i: int, j: int|
        0 <= i < j < listed.len() ==> (#[trigger] listed[i]).quota_subject@ != (
        #[trigger] listed[j]).quota_subject@
    &&& listed.len() == maximum_rows || forall|subject: Seq<char>| #[trigger]
        table.waits(subject) ==> is_listed(listed, subject)
}

/// A subject is among those of rows.
pub open spec fn is_listed(listed: Seq<QueueEntryRow>, subject: Seq<char>) -> bool {
    exists|i: int| 0 <= i < listed.len() && (#[trigger] listed[i]).quota_subject@ == subject
}

/// What statements do to the queue.
pub open spec fn queue_changes(
    before: QueueRows,
    statement: Statement,
    reply: Reply,
    after: QueueRows,
) -> bool {
    match statement {
        Statement::Begin | Statement::Commit | Statement::LockQuotaSubject { .. } => reply is Done
            && after == before,
        Statement::CountQueuedSharedBuilds { quota_subject } => after == before && match reply {
            Reply::Count(counted) => counted == before.queued(quota_subject@).len(),
            _ => false,
        },
        Statement::CountActiveSharedBuilds { quota_subject } => after == before && match reply {
            Reply::Count(counted) => counted == before.active(quota_subject@).len(),
            _ => false,
        },
        Statement::EnqueueSharedBuild { derivation_path, quota_subject } => {
            let path = derivation_path@;
            if before.builds.contains_key(path) && before.builds[path].state == "claimed"@
                && before.builds[path].quota_subject is None {
                match reply {
                    Reply::QueueEntry(Some(row)) => {
                        &&& row.derivation_path@ == path
                        &&& row.quota_subject@ == quota_subject@
                        &&& row.queue_position == before.next_position
                        &&& after == (QueueRows {
                            builds: before.builds.insert(
                                path,
                                Place {
                                    quota_subject: Some(quota_subject@),
                                    queue_position: before.next_position,
                                    ..before.builds[path]
                                },
                            ),
                            next_position: before.next_position + 1,
                            ..before
                        })
                    },
                    _ => false,
                }
            } else {
                reply == Reply::QueueEntry(None) && after == before
            }
        },
        Statement::LockQueuedSubject { derivation_path } => {
            let path = derivation_path@;
            &&& after == before
            &&& match reply {
                Reply::Text(None) => !(before.builds.contains_key(path)
                    && before.builds[path].is_queued()),
                Reply::Text(Some(Some(subject))) => before.builds.contains_key(path)
                    && before.builds[path].is_queued() && before.builds[path].quota_subject == Some(
                    subject@,
                ),
                _ => false,
            }
        },
        Statement::StartClaimedSharedBuild { derivation_path } => {
            let path = derivation_path@;
            if before.builds.contains_key(path) && before.builds[path].state == "claimed"@ {
                match reply {
                    Reply::SharedBuild(Some(row)) => {
                        &&& row.derivation_path@ == path
                        &&& row.state@ == "running"@
                        &&& after == (QueueRows {
                            builds: before.builds.insert(
                                path,
                                Place { state: "running"@, ..before.builds[path] },
                            ),
                            ..before
                        })
                    },
                    _ => false,
                }
            } else {
                reply == Reply::SharedBuild(None) && after == before
            }
        },
        Statement::ReadNextAttemptOrdinal { .. } => reply is Ordinal && after == before,
        Statement::InsertRunningAttempt { .. } => reply is SharedAttempt && after == before,
        Statement::ReadFirstQueuedOfSubjects { maximum_rows } => after == before && match reply {
            Reply::QueueEntries(listed) => are_first_of_subjects(listed@, before, maximum_rows),
            _ => false,
        },
        Statement::ReadSchedulerSubject => after == before && match reply {
            Reply::Text(Some(subject)) => match (subject, before.last_subject) {
                (Some(read), Some(recorded)) => read@ == recorded,
                (None, None) => true,
                _ => false,
            },
            _ => false,
        },
        Statement::RecordSchedulerSubject { quota_subject } => reply == Reply::Changed(1) && after
            == (QueueRows { last_subject: Some(quota_subject@), ..before }),
        Statement::ReadQueuedSharedBuilds { maximum_rows } => after == before && match reply {
            Reply::QueueEntries(listed) => are_first(listed@, before.builds, maximum_rows),
            _ => false,
        },
        _ => true,
    }
}

/// The model of the queue.
pub open spec fn on_queue() -> spec_fn(QueueRows, Statement, Reply, QueueRows) -> bool {
    |before: QueueRows, statement: Statement, reply: Reply, after: QueueRows|
        queue_changes(before, statement, reply, after)
}

/// The queueing of a claimed build.
pub open spec fn enqueueing(
    database_url: Seq<char>,
    derivation_path: String,
    quota_subject: String,
    maximum_queued_builds: usize,
    rules: SharedBuildRules,
) -> spec_fn(Seq<Reply>) -> Step<SharedBuildQueueEntry, SharedBuildError> {
    |history: Seq<Reply>|
        shared_builds::enqueue_step(
            database_url,
            derivation_path,
            quota_subject,
            maximum_queued_builds,
            rules,
            history,
        )
}

/// The start of a queued build.
pub open spec fn starting(
    database_url: Seq<char>,
    derivation_path: String,
    maximum_active_builds: usize,
    rules: SharedBuildRules,
) -> spec_fn(Seq<Reply>) -> Step<SharedBuild, SharedBuildError> {
    |history: Seq<Reply>|
        shared_builds::start_queued_step(
            database_url,
            derivation_path,
            maximum_active_builds,
            rules,
            history,
        )
}

/// The reading of the queue.
pub open spec fn reading(database_url: Seq<char>, limit: usize) -> spec_fn(Seq<Reply>) -> Step<
    Seq<SharedBuildQueueEntry>,
    SharedBuildError,
> {
    |history: Seq<Reply>| shared_builds::queued_step(database_url, limit, history)
}

proof fn states_differ()
    ensures
        "claimed"@ != "running"@,
        "claimed"@ != "collecting"@,
{
    reveal_strlit("claimed");
    reveal_strlit("running");
    reveal_strlit("collecting");
    assert("claimed"@[0] == 'c');
    assert("running"@[0] == 'r');
    assert("claimed"@.len() == 7);
    assert("collecting"@.len() == 10);
}

/// A build that is queued was claimed and for no subject yet. It is now behind all others that
/// wait, and its subject has one more waiting than before, which are no more than it may have. The
/// other builds and the counts of other subjects stay.
pub proof fn queued_build_waits_behind_all_others(
    database_url: Seq<char>,
    derivation_path: String,
    quota_subject: String,
    maximum_queued_builds: usize,
    rules: SharedBuildRules,
    tables: Seq<QueueRows>,
    history: Seq<Reply>,
    entry: SharedBuildQueueEntry,
)
    requires
        tables[0].well_formed(),
        rows::ran(
            enqueueing(
                database_url,
                derivation_path,
                quota_subject,
                maximum_queued_builds,
                rules,
            ),
            on_queue(),
            tables,
            history,
        ),
        shared_builds::enqueue_step(
            database_url,
            derivation_path,
            quota_subject,
            maximum_queued_builds,
            rules,
            history,
        ) == Step::<SharedBuildQueueEntry, SharedBuildError>::Finish(Ok(entry)),
    ensures
        ({
            let before = tables[0];
            let after = tables.last();
            let path = derivation_path@;
            &&& after.well_formed()
            &&& before.builds.contains_key(path)
            &&& before.builds[path].state == "claimed"@
            &&& before.builds[path].quota_subject is None
            &&& after.builds.remove(path) == before.builds.remove(path)
            &&& after.builds[path].is_queued()
            &&& after.builds[path].quota_subject == Some(quota_subject@)
            &&& after.builds[path].queue_position == entry.queue_position
            &&& entry.derivation_path@ == path
            &&& entry.quota_subject@ == quota_subject@
            &&& forall|other: Seq<char>| #[trigger]
                after.builds.contains_key(other) && after.builds[other].is_queued() && other != path
                    ==> after.builds[other].queue_position < entry.queue_position
            &&& after.queued(quota_subject@) == before.queued(quota_subject@).insert(path)
            &&& after.queued(quota_subject@).len() == before.queued(quota_subject@).len() + 1
            &&& after.queued(quota_subject@).len() <= maximum_queued_builds
            &&& forall|other: Seq<char>|
                other != quota_subject@ ==> #[trigger] after.queued(other) == before.queued(other)
            &&& forall|other: Seq<char>| #[trigger] after.active(other) == before.active(other)
        }),
{
    let operation = enqueueing(
        database_url,
        derivation_path,
        quota_subject,
        maximum_queued_builds,
        rules,
    );
    let path = derivation_path@;
    next_is_done(operation, on_queue(), tables, history, 0);
    next_is_done(operation, on_queue(), tables, history, 1);
    next_is_done(operation, on_queue(), tables, history, 2);
    next_is_done(operation, on_queue(), tables, history, 3);
    next_is_done(operation, on_queue(), tables, history, 4);
    end_is_reached(operation, on_queue(), tables, history, 5);
    states_differ();
    let before = tables[0];
    let after = tables.last();
    assert(after.builds.dom() =~= before.builds.dom());
    assert(after.builds.remove(path) =~= before.builds.remove(path));
    assert(after.queued(quota_subject@) =~= before.queued(quota_subject@).insert(path));
    assert forall|other: Seq<char>| other != quota_subject@ implies #[trigger] after.queued(other)
        == before.queued(other) by {
        assert(after.queued(other) =~= before.queued(other));
    }
    assert forall|other: Seq<char>| #[trigger] after.active(other) == before.active(other) by {
        assert(after.active(other) =~= before.active(other));
    }
    before.builds.dom().lemma_len_filter(
        |path: Seq<char>|
            before.builds[path].state == "claimed"@ && before.builds[path].quota_subject == Some(
                quota_subject@,
            ),
    );
}

/// A subject that has as many builds waiting as it may has no other queued, and everything stays.
pub proof fn full_queue_refuses(
    database_url: Seq<char>,
    derivation_path: String,
    quota_subject: String,
    maximum_queued_builds: usize,
    rules: SharedBuildRules,
    tables: Seq<QueueRows>,
    history: Seq<Reply>,
)
    requires
        shared_builds::identity_valid(database_url, derivation_path@, rules),
        shared_builds::is_subject(quota_subject@),
        1 <= maximum_queued_builds <= 65_536,
        tables[0].queued(quota_subject@).len() >= maximum_queued_builds,
        rows::ran(
            enqueueing(
                database_url,
                derivation_path,
                quota_subject,
                maximum_queued_builds,
                rules,
            ),
            on_queue(),
            tables,
            history,
        ),
    ensures
        shared_builds::enqueue_step(
            database_url,
            derivation_path,
            quota_subject,
            maximum_queued_builds,
            rules,
            history,
        ) == shared_builds::failed::<SharedBuildQueueEntry>(SharedBuildFailure::Quota),
        tables.last() == tables[0],
{
    let operation = enqueueing(
        database_url,
        derivation_path,
        quota_subject,
        maximum_queued_builds,
        rules,
    );
    next_is_done(operation, on_queue(), tables, history, 0);
    next_is_done(operation, on_queue(), tables, history, 1);
    next_is_done(operation, on_queue(), tables, history, 2);
    end_is_reached(operation, on_queue(), tables, history, 3);
}

/// A build that starts was waiting. It no longer does, and its subject has one more running than
/// before, which are no more than it may have. The other builds and the counts of other subjects
/// stay.
pub proof fn started_build_runs_within_its_quota(
    database_url: Seq<char>,
    derivation_path: String,
    maximum_active_builds: usize,
    rules: SharedBuildRules,
    tables: Seq<QueueRows>,
    history: Seq<Reply>,
    build: SharedBuild,
)
    requires
        tables[0].well_formed(),
        rows::ran(
            starting(database_url, derivation_path, maximum_active_builds, rules),
            on_queue(),
            tables,
            history,
        ),
        shared_builds::start_queued_step(
            database_url,
            derivation_path,
            maximum_active_builds,
            rules,
            history,
        ) == Step::<SharedBuild, SharedBuildError>::Finish(Ok(build)),
    ensures
        ({
            let before = tables[0];
            let after = tables.last();
            let path = derivation_path@;
            let subject = before.builds[path].quota_subject->0;
            &&& after.well_formed()
            &&& before.builds.contains_key(path)
            &&& before.builds[path].is_queued()
            &&& after.builds.remove(path) == before.builds.remove(path)
            &&& after.builds[path].state == "running"@
            &&& after.builds[path].quota_subject == Some(subject)
            &&& build.derivation_path@ == path
            &&& after.queued(subject) == before.queued(subject).remove(path)
            &&& after.active(subject) == before.active(subject).insert(path)
            &&& after.active(subject).len() == before.active(subject).len() + 1
            &&& after.active(subject).len() <= maximum_active_builds
            &&& forall|other: Seq<char>|
                other != subject ==> #[trigger] after.queued(other) == before.queued(other)
            &&& forall|other: Seq<char>|
                other != subject ==> #[trigger] after.active(other) == before.active(other)
        }),
{
    let operation = starting(database_url, derivation_path, maximum_active_builds, rules);
    let path = derivation_path@;
    next_is_done(operation, on_queue(), tables, history, 0);
    next_is_done(operation, on_queue(), tables, history, 1);
    next_is_done(operation, on_queue(), tables, history, 2);
    next_is_done(operation, on_queue(), tables, history, 3);
    next_is_done(operation, on_queue(), tables, history, 4);
    next_is_done(operation, on_queue(), tables, history, 5);
    next_is_done(operation, on_queue(), tables, history, 6);
    next_is_done(operation, on_queue(), tables, history, 7);
    end_is_reached(operation, on_queue(), tables, history, 8);
    states_differ();
    let before = tables[0];
    let after = tables.last();
    let subject = before.builds[path].quota_subject->0;
    assert(after.builds.dom() =~= before.builds.dom());
    assert(after.builds.remove(path) =~= before.builds.remove(path));
    assert(after.queued(subject) =~= before.queued(subject).remove(path));
    assert(after.active(subject) =~= before.active(subject).insert(path));
    assert forall|other: Seq<char>| other != subject implies #[trigger] after.queued(other)
        == before.queued(other) by {
        assert(after.queued(other) =~= before.queued(other));
    }
    assert forall|other: Seq<char>| other != subject implies #[trigger] after.active(other)
        == before.active(other) by {
        assert(after.active(other) =~= before.active(other));
    }
    before.builds.dom().lemma_len_filter(
        |path: Seq<char>|
            (before.builds[path].state == "running"@ || before.builds[path].state
                == "collecting"@) && before.builds[path].quota_subject == Some(subject),
    );
}

/// A subject that has as many builds running as it may has no other started, and everything
/// stays.
pub proof fn full_subject_starts_nothing(
    database_url: Seq<char>,
    derivation_path: String,
    maximum_active_builds: usize,
    rules: SharedBuildRules,
    tables: Seq<QueueRows>,
    history: Seq<Reply>,
)
    requires
        shared_builds::identity_valid(database_url, derivation_path@, rules),
        1 <= maximum_active_builds <= 65_536,
        tables[0].builds.contains_key(derivation_path@),
        tables[0].builds[derivation_path@].is_queued(),
        tables[0].active(tables[0].builds[derivation_path@].quota_subject->0).len()
            >= maximum_active_builds,
        rows::ran(
            starting(database_url, derivation_path, maximum_active_builds, rules),
            on_queue(),
            tables,
            history,
        ),
    ensures
        shared_builds::start_queued_step(
            database_url,
            derivation_path,
            maximum_active_builds,
            rules,
            history,
        ) == shared_builds::failed::<SharedBuild>(SharedBuildFailure::Quota),
        tables.last() == tables[0],
{
    let operation = starting(database_url, derivation_path, maximum_active_builds, rules);
    next_is_done(operation, on_queue(), tables, history, 0);
    next_is_done(operation, on_queue(), tables, history, 1);
    next_is_done(operation, on_queue(), tables, history, 2);
    next_is_done(operation, on_queue(), tables, history, 3);
    end_is_reached(operation, on_queue(), tables, history, 4);
}

/// The queue is read first come first: what is read waits, in the order of the places, and what
/// waits and is not read comes behind as many as were asked for.
pub proof fn queue_is_read_in_its_order(
    database_url: Seq<char>,
    limit: usize,
    tables: Seq<QueueRows>,
    history: Seq<Reply>,
    entries: Seq<SharedBuildQueueEntry>,
)
    requires
        rows::ran(reading(database_url, limit), on_queue(), tables, history),
        shared_builds::queued_step(database_url, limit, history) == Step::<
            Seq<SharedBuildQueueEntry>,
            SharedBuildError,
        >::Finish(Ok(entries)),
    ensures
        ({
            let builds = tables[0].builds;
            &&& tables.last() == tables[0]
            &&& entries.len() <= limit
            &&& forall|i: int|
                0 <= i < entries.len() ==> {
                    let path = (#[trigger] entries[i]).derivation_path@;
                    &&& builds.contains_key(path)
                    &&& builds[path].is_queued()
                    &&& builds[path].quota_subject == Some(entries[i].quota_subject@)
                    &&& builds[path].queue_position == entries[i].queue_position
                }
            &&& forall|i: int, j: int|
                0 <= i < j < entries.len() ==> (#[trigger] entries[i]).queue_position <= (
                #[trigger] entries[j]).queue_position
            &&& forall|path: Seq<char>| #[trigger]
                builds.contains_key(path) && builds[path].is_queued() ==> (exists|i: int|
                    0 <= i < entries.len() && (#[trigger] entries[i]).derivation_path@ == path) || (
                entries.len() == limit && forall|i: int|
                    0 <= i < entries.len() ==> (#[trigger] entries[i]).queue_position
                        <= builds[path].queue_position)
        }),
{
    let operation = reading(database_url, limit);
    next_is_done(operation, on_queue(), tables, history, 0);
    next_is_done(operation, on_queue(), tables, history, 1);
    end_is_reached(operation, on_queue(), tables, history, 2);
    let listed = history[1]->QueueEntries_0@;
    let builds = tables[0].builds;
    assert forall|i: int| 0 <= i < listed.len() implies {
        let entry = #[trigger] entries[i];
        &&& entry.derivation_path == listed[i].derivation_path
        &&& entry.quota_subject == listed[i].quota_subject
        &&& entry.queue_position == listed[i].queue_position
    } by {
        assert(shared_builds::entry_of(listed[i]) is Some);
    }
    assert forall|path: Seq<char>| #[trigger]
        builds.contains_key(path) && builds[path].is_queued() implies (exists|i: int|
        0 <= i < entries.len() && (#[trigger] entries[i]).derivation_path@ == path) || (
    entries.len() == limit && forall|i: int|
        0 <= i < entries.len() ==> (#[trigger] entries[i]).queue_position
            <= builds[path].queue_position) by {
        if exists|i: int| 0 <= i < listed.len() && (#[trigger] listed[i]).derivation_path@ == path {
            let i = choose|i: int|
                0 <= i < listed.len() && (#[trigger] listed[i]).derivation_path@ == path;
            assert(entries[i].derivation_path@ == path);
        } else {
            assert forall|i: int| 0 <= i < entries.len() implies (
            #[trigger] entries[i]).queue_position <= builds[path].queue_position by {
                assert(listed[i].queue_position <= builds[path].queue_position);
            }
        }
    }
}

/// The choice of the build whose turn it is.
pub open spec fn choosing(
    database_url: Seq<char>,
    after_quota_subject: Option<String>,
    maximum_subjects: usize,
) -> spec_fn(Seq<Reply>) -> Step<Option<SharedBuildQueueEntry>, SharedBuildError> {
    |history: Seq<Reply>|
        shared_builds::next_step(database_url, after_quota_subject, maximum_subjects, history)
}

/// It is the turn of a subject, of all that wait: of those after the one that had the last turn it
/// is the first, and where none waits after that one, it is the first of all.
pub open spec fn has_its_turn(table: QueueRows, after: Option<Seq<char>>, chosen: Seq<char>) -> bool {
    &&& table.waits(chosen)
    &&& if after is Some && exists|subject: Seq<char>| #[trigger]
        table.waits(subject) && text::precedes(after->0, subject) {
        &&& text::precedes(after->0, chosen)
        &&& forall|subject: Seq<char>| #[trigger]
            table.waits(subject) && text::precedes(after->0, subject) ==> !text::precedes(
                subject,
                chosen,
            )
    } else {
        forall|subject: Seq<char>| #[trigger]
            table.waits(subject) ==> !text::precedes(subject, chosen)
    }
}

/// As many rows of different subjects as there are waiting subjects are of all of them.
proof fn all_are_listed(listed: Seq<QueueEntryRow>, table: QueueRows, subjects: Set<Seq<char>>)
    requires
        subjects.finite(),
        forall|subject: Seq<char>| #[trigger]
            subjects.contains(subject) <==> table.waits(subject),
        forall|i: int|
            0 <= i < listed.len() ==> subjects.contains((#[trigger] listed[i]).quota_subject@),
        forall|i: int, j: int|
            0 <= i < j < listed.len() ==> (#[trigger] listed[i]).quota_subject@ != (
            #[trigger] listed[j]).quota_subject@,
        subjects.len() <= listed.len(),
    ensures
        forall|subject: Seq<char>| #[trigger] table.waits(subject) ==> is_listed(listed, subject),
{
    let names = listed.map_values(|row: QueueEntryRow| row.quota_subject@);
    assert forall|i: int, j: int| 0 <= i < names.len() && 0 <= j < names.len() && i != j implies
        names[i] != names[j] by {
        assert(names[i] == listed[i].quota_subject@);
        assert(names[j] == listed[j].quota_subject@);
    }
    assert(names.no_duplicates());
    names.unique_seq_to_set();
    let found = names.to_set();
    assert(found.subset_of(subjects)) by {
        assert forall|name: Seq<char>| found.contains(name) implies subjects.contains(name) by {
            let i = choose|i: int| 0 <= i < names.len() && names[i] == name;
            assert(subjects.contains(listed[i].quota_subject@));
        }
    }
    vstd::set_lib::lemma_len_subset(found, subjects);
    vstd::set_lib::lemma_subset_equality(found, subjects);
    assert forall|subject: Seq<char>| #[trigger] table.waits(subject) implies is_listed(
        listed,
        subject,
    ) by {
        assert(subjects.contains(subject));
        let i = choose|i: int| 0 <= i < names.len() && names[i] == subject;
        assert(listed[i].quota_subject@ == subject);
    }
}

/// As long as no more subjects wait than are looked at, the build that is found is of the subject
/// whose turn it is among all that wait, and of that subject the one that waited longest. None is
/// found only where none waits, and nothing changes.
pub proof fn turn_goes_round_all_waiting_subjects(
    database_url: Seq<char>,
    after_quota_subject: Option<String>,
    maximum_subjects: usize,
    subjects: Set<Seq<char>>,
    tables: Seq<QueueRows>,
    history: Seq<Reply>,
)
    requires
        !text::is_blank(database_url),
        1 <= maximum_subjects <= 256,
        after_quota_subject is Some ==> shared_builds::is_subject(after_quota_subject->0@),
        tables[0].readable(),
        subjects.finite(),
        forall|subject: Seq<char>| #[trigger]
            subjects.contains(subject) <==> tables[0].waits(subject),
        subjects.len() <= maximum_subjects,
        rows::ran(
            choosing(database_url, after_quota_subject, maximum_subjects),
            on_queue(),
            tables,
            history,
        ),
    ensures
        tables.last() == tables[0],
        shared_builds::next_step(database_url, after_quota_subject, maximum_subjects, history)
            matches Step::Finish(Ok(found)) && match found {
            None => forall|subject: Seq<char>| !#[trigger] tables[0].waits(subject),
            Some(entry) => {
                &&& has_its_turn(
                    tables[0],
                    shared_builds::subject_text(after_quota_subject),
                    entry.quota_subject@,
                )
                &&& tables[0].is_first_of(entry.derivation_path@, entry.quota_subject@)
                &&& entry.queue_position == tables[0].builds[entry.derivation_path@].queue_position
            },
        },
{
    let operation = choosing(database_url, after_quota_subject, maximum_subjects);
    let table = tables[0];
    let after = shared_builds::subject_text(after_quota_subject);
    next_is_done(operation, on_queue(), tables, history, 0);
    next_is_done(operation, on_queue(), tables, history, 1);
    let listed = history[1]->QueueEntries_0@;
    assert forall|i: int| 0 <= i < listed.len() implies shared_builds::entry_of(
        #[trigger] listed[i],
    ) is Some && subjects.contains(listed[i].quota_subject@) by {
        assert(is_entry(listed[i], table.builds));
        assert(table.waits_at(listed[i].derivation_path@, listed[i].quota_subject@));
        assert(table.waits(listed[i].quota_subject@));
    }
    end_is_reached(operation, on_queue(), tables, history, 2);
    if listed.len() == maximum_subjects {
        all_are_listed(listed, table, subjects);
    }
    let entries = shared_builds::entries_of(listed)->0;
    assert forall|i: int| 0 <= i < listed.len() implies {
        let entry = #[trigger] entries[i];
        &&& entry.derivation_path == listed[i].derivation_path
        &&& entry.quota_subject == listed[i].quota_subject
        &&& entry.queue_position == listed[i].queue_position
    } by {
        assert(shared_builds::entry_of(listed[i]) is Some);
    }
    shared_builds::first_after_is_least(entries, after);
    shared_builds::first_after_is_least(entries, None);
    assert forall|subject: Seq<char>| #[trigger] table.waits(subject) implies exists|i: int|
        0 <= i < entries.len() && (#[trigger] entries[i]).quota_subject@ == subject by {
        assert(is_listed(listed, subject));
        let i = choose|i: int| 0 <= i < listed.len() && (#[trigger] listed[i]).quota_subject@ == subject;
        assert(entries[i].quota_subject@ == subject);
    }
    match shared_builds::next_turn(entries, after) {
        None => {
            assert forall|subject: Seq<char>| !#[trigger] table.waits(subject) by {
                if table.waits(subject) {
                    let i = choose|i: int|
                        0 <= i < entries.len() && (#[trigger] entries[i]).quota_subject@ == subject;
                    assert(shared_builds::comes_after(entries[i], None));
                }
            }
        },
        Some(place) => {
            let chosen = entries[place].quota_subject@;
            assert(is_entry(listed[place], table.builds));
            assert(table.waits_at(listed[place].derivation_path@, chosen));
            assert forall|subject: Seq<char>| #[trigger]
                table.waits(subject) && (after is None || text::precedes(after->0, subject)
                    || shared_builds::first_after(entries, after) is None) implies !text::precedes(
                subject,
                chosen,
            ) by {
                let i = choose|i: int|
                    0 <= i < entries.len() && (#[trigger] entries[i]).quota_subject@ == subject;
                assert(shared_builds::comes_after(entries[i], None));
                if after is Some && text::precedes(after->0, subject) {
                    assert(shared_builds::comes_after(entries[i], after));
                }
            }
            if shared_builds::first_after(entries, after) is None {
                assert forall|subject: Seq<char>| #[trigger] table.waits(subject) implies after
                    is Some && !text::precedes(after->0, subject) by {
                    let i = choose|i: int|
                        0 <= i < entries.len() && (#[trigger] entries[i]).quota_subject@ == subject;
                    assert(!shared_builds::comes_after(entries[i], after));
                }
            } else if after is Some {
                assert(shared_builds::comes_after(entries[place], after));
                assert(table.waits(chosen));
            }
        },
    }
}

/// The record of the subject whose build was let in.
pub open spec fn remembering(database_url: Seq<char>, quota_subject: String) -> spec_fn(
    Seq<Reply>,
) -> Step<(), SharedBuildError> {
    |history: Seq<Reply>|
        shared_builds::record_subject_step(database_url, quota_subject, history)
}

/// The look for the subject whose build was let in last.
pub open spec fn recalling(database_url: Seq<char>) -> spec_fn(Seq<Reply>) -> Step<
    Option<String>,
    SharedBuildError,
> {
    |history: Seq<Reply>| shared_builds::scheduler_subject_step(database_url, history)
}

/// The subject that was recorded is found again, and to record one changes nothing else.
pub proof fn recorded_subject_is_found(
    database_url: Seq<char>,
    quota_subject: String,
    tables: Seq<QueueRows>,
    history: Seq<Reply>,
    later_url: Seq<char>,
    later_tables: Seq<QueueRows>,
    later_history: Seq<Reply>,
)
    requires
        !text::is_blank(database_url),
        shared_builds::is_subject(quota_subject@),
        rows::ran(remembering(database_url, quota_subject), on_queue(), tables, history),
        !text::is_blank(later_url),
        rows::ran(recalling(later_url), on_queue(), later_tables, later_history),
        later_tables[0] == tables.last(),
    ensures
        shared_builds::record_subject_step(database_url, quota_subject, history) == Step::<
            (),
            SharedBuildError,
        >::Finish(Ok(())),
        tables.last() == (QueueRows { last_subject: Some(quota_subject@), ..tables[0] }),
        shared_builds::scheduler_subject_step(later_url, later_history) matches Step::Finish(
            Ok(Some(found)),
        ) && found@ == quota_subject@,
        later_tables.last() == later_tables[0],
{
    let recording = remembering(database_url, quota_subject);
    next_is_done(recording, on_queue(), tables, history, 0);
    next_is_done(recording, on_queue(), tables, history, 1);
    end_is_reached(recording, on_queue(), tables, history, 2);
    let looking = recalling(later_url);
    next_is_done(looking, on_queue(), later_tables, later_history, 0);
    next_is_done(looking, on_queue(), later_tables, later_history, 1);
    end_is_reached(looking, on_queue(), later_tables, later_history, 2);
}

/// A claimed build that is for no subject yet is queued as long as its subject has fewer waiting
/// than it may, and is refused where it is queued already or is not claimed.
pub proof fn claimed_build_is_queued(
    database_url: Seq<char>,
    derivation_path: String,
    quota_subject: String,
    maximum_queued_builds: usize,
    rules: SharedBuildRules,
    tables: Seq<QueueRows>,
    history: Seq<Reply>,
)
    requires
        shared_builds::identity_valid(database_url, derivation_path@, rules),
        shared_builds::is_subject(quota_subject@),
        1 <= maximum_queued_builds <= 65_536,
        tables[0].next_position > 0,
        tables[0].queued(quota_subject@).len() < maximum_queued_builds,
        rows::ran(
            enqueueing(
                database_url,
                derivation_path,
                quota_subject,
                maximum_queued_builds,
                rules,
            ),
            on_queue(),
            tables,
            history,
        ),
    ensures
        ({
            let path = derivation_path@;
            let step = shared_builds::enqueue_step(
                database_url,
                derivation_path,
                quota_subject,
                maximum_queued_builds,
                rules,
                history,
            );
            if tables[0].builds.contains_key(path) && tables[0].builds[path].state == "claimed"@
                && tables[0].builds[path].quota_subject is None {
                step matches Step::Finish(Ok(entry)) && entry.derivation_path@ == path
                    && entry.quota_subject@ == quota_subject@ && entry.queue_position
                    == tables[0].next_position
            } else {
                step == shared_builds::failed::<SharedBuildQueueEntry>(
                    SharedBuildFailure::InvalidState,
                ) && tables.last() == tables[0]
            }
        }),
{
    let operation = enqueueing(
        database_url,
        derivation_path,
        quota_subject,
        maximum_queued_builds,
        rules,
    );
    next_is_done(operation, on_queue(), tables, history, 0);
    next_is_done(operation, on_queue(), tables, history, 1);
    next_is_done(operation, on_queue(), tables, history, 2);
    next_is_done(operation, on_queue(), tables, history, 3);
    if history[3] matches Reply::QueueEntry(Some(_)) {
        next_is_done(operation, on_queue(), tables, history, 4);
        end_is_reached(operation, on_queue(), tables, history, 5);
    } else {
        end_is_reached(operation, on_queue(), tables, history, 4);
    }
}

} // verus!
