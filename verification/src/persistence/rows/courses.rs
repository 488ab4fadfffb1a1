//! The course of a shared build on the rows: while it runs it has one active attempt, which goes
//! with it from start to end.

use crate::crypto;
use crate::persistence::database::{
    Reply, SharedAttemptRow, SharedBuildRow, SharedOutcomeRow, Statement, Step,
};
use crate::persistence::rows::builds;
use crate::persistence::rows::{self, end_is_reached, next_is_done};
use crate::persistence::shared_builds::{
    self, SharedBuild, SharedBuildError, SharedBuildFailure, SharedBuildRules, SharedBuildState,
};
use crate::service::ipc::MAX_IPC_COMPONENT_BYTES;
use crate::text;
use crate::time::Span;
use vstd::prelude::*;

verus! {

/// Builds under their derivations, the subjects that queued ones are for, attempts under their
/// numbers, and the outcomes of attempts.
pub struct CourseRows {
    pub builds: Map<Seq<char>, SharedBuildRow>,
    pub subjects: Map<Seq<char>, Seq<char>>,
    pub attempts: Map<i64, SharedAttemptRow>,
    pub outcomes: Map<i64, SharedOutcomeRow>,
}

/// An attempt at a build is under way.
pub open spec fn is_active(row: SharedAttemptRow, path: Seq<char>) -> bool {
    row.derivation_path@ == path && (row.state@ == "running"@ || row.state@ == "collecting"@)
}

impl CourseRows {
    /// An attempt is the only one at a build that is under way.
    pub open spec fn is_one_active(self, path: Seq<char>, id: i64) -> bool {
        &&& self.attempts.contains_key(id)
        &&& is_active(self.attempts[id], path)
        &&& forall|other: i64| #[trigger]
            self.attempts.contains_key(other) && is_active(self.attempts[other], path) ==> other
                == id
    }

    /// No attempt at a build is under way.
    pub open spec fn is_idle(self, path: Seq<char>) -> bool {
        forall|id: i64| #[trigger]
            self.attempts.contains_key(id) ==> !is_active(self.attempts[id], path)
    }

    /// A build that runs or collects has one active attempt, in the same state; another has none.
    pub open spec fn goes_with_its_attempt(self, path: Seq<char>) -> bool {
        let state = self.builds[path].state@;
        if state == "running"@ || state == "collecting"@ {
            exists|id: i64| #[trigger]
                self.is_one_active(path, id) && self.attempts[id].state@ == state
        } else {
            self.is_idle(path)
        }
    }

    /// Every build goes with its attempt, and rows are under their own names.
    pub open spec fn well_formed(self) -> bool {
        &&& self.builds.dom().finite()
        &&& forall|path: Seq<char>| #[trigger]
            self.builds.contains_key(path) ==> self.builds[path].derivation_path@ == path
                && self.goes_with_its_attempt(path)
        &&& forall|id: i64| #[trigger]
            self.attempts.contains_key(id) ==> self.attempts[id].attempt_id == id
    }

    /// The attempts at a build that are under way.
    pub open spec fn active_attempts(self, path: Seq<char>) -> Set<i64> {
        Set::new(|id: i64| self.attempts.contains_key(id) && is_active(self.attempts[id], path))
    }

    /// The attempts at a build that run.
    pub open spec fn running_attempts(self, path: Seq<char>) -> Set<i64> {
        Set::new(
            |id: i64|
                self.attempts.contains_key(id) && self.attempts[id].derivation_path@ == path
                    && self.attempts[id].state@ == "running"@,
        )
    }

    /// A build waits for its turn.
    pub open spec fn is_queued(self, path: Seq<char>) -> bool {
        &&& self.builds.contains_key(path)
        &&& self.builds[path].state@ == "claimed"@
        &&& self.subjects.contains_key(path)
    }

    /// The builds of a subject that run or collect.
    pub open spec fn active(self, subject: Seq<char>) -> Set<Seq<char>> {
        self.builds.dom().filter(
            |path: Seq<char>|
                (self.builds[path].state@ == "running"@ || self.builds[path].state@
                    == "collecting"@) && self.subjects.contains_key(path) && self.subjects[path]
                    == subject,
        )
    }

    /// The builds in a state.
    pub open spec fn in_state(self, state: Seq<char>) -> Set<Seq<char>> {
        self.builds.dom().filter(|path: Seq<char>| self.builds[path].state@ == state)
    }

    /// The builds that wait for their turn.
    pub open spec fn queued(self) -> Set<Seq<char>> {
        self.builds.dom().filter(|path: Seq<char>| self.is_queued(path))
    }
}

/// A row is another one that started.
pub open spec fn is_started(row: SharedBuildRow, before: SharedBuildRow) -> bool {
    &&& row == (SharedBuildRow { state: row.state, started_at: row.started_at, ..before })
    &&& row.state@ == "running"@
    &&& row.started_at is Some
}

/// A row is another one whose outputs are collected.
pub open spec fn is_collected(row: SharedBuildRow, before: SharedBuildRow) -> bool {
    &&& row == (SharedBuildRow { state: row.state, collecting_at: row.collecting_at, ..before })
    &&& row.state@ == "collecting"@
    &&& row.collecting_at is Some
}

/// A row is another one that ended so, and is remembered for a while. Metadata is kept as JSON.
pub open spec fn is_ended(
    row: SharedBuildRow,
    before: SharedBuildRow,
    state: Seq<char>,
    result_metadata: Seq<char>,
    failure_classification: Option<String>,
    seconds: int,
) -> bool {
    &&& row == (SharedBuildRow {
        state: row.state,
        result_metadata: row.result_metadata,
        failure_classification: row.failure_classification,
        completed_at: row.completed_at,
        expires_at: row.expires_at,
        ..before
    })
    &&& row.state@ == state
    &&& row.result_metadata is Some
    &&& crypto::json_equal(row.result_metadata->0@, result_metadata)
    &&& crypto::json_is_object(row.result_metadata->0@) == crypto::json_is_object(result_metadata)
    &&& shared_builds::same_options(row.failure_classification, failure_classification)
    &&& row.completed_at is Some
    &&& row.expires_at is Some
    &&& row.expires_at->0 - row.completed_at->0 == seconds * 1_000_000
}

/// An attempt is another one that came into a state of its build.
pub open spec fn is_moved(row: SharedAttemptRow, before: SharedAttemptRow, state: Seq<char>) -> bool {
    &&& row == (SharedAttemptRow {
        state: row.state,
        collecting_at: row.collecting_at,
        completed_at: row.completed_at,
        ..before
    })
    &&& row.state@ == state
    &&& if state == "collecting"@ {
        row.collecting_at is Some && row.completed_at == before.completed_at
    } else {
        row.completed_at is Some && row.collecting_at == before.collecting_at
    }
}

/// A number is the next one for an attempt at a build.
pub open spec fn is_next_ordinal(table: CourseRows, path: Seq<char>, ordinal: i32) -> bool {
    &&& ordinal >= 1
    &&& forall|id: i64| #[trigger]
        table.attempts.contains_key(id) && table.attempts[id].derivation_path@ == path
            ==> table.attempts[id].ordinal < ordinal
    &&& ordinal > 1 ==> exists|id: i64| #[trigger]
        table.attempts.contains_key(id) && table.attempts[id].derivation_path@ == path
            && table.attempts[id].ordinal == ordinal - 1
}

/// A row is the latest attempt at a build.
pub open spec fn is_latest(table: CourseRows, path: Seq<char>, row: SharedAttemptRow) -> bool {
    &&& table.attempts.contains_key(row.attempt_id)
    &&& table.attempts[row.attempt_id] == row
    &&& row.derivation_path@ == path
    &&& forall|id: i64| #[trigger]
        table.attempts.contains_key(id) && table.attempts[id].derivation_path@ == path
            ==> table.attempts[id].ordinal <= row.ordinal
}

/// A build runs or collects under an execution.
pub open spec fn is_executed(
    row: SharedBuildRow,
    backend_name: Seq<char>,
    execution: Seq<char>,
) -> bool {
    &&& row.state@ == "running"@ || row.state@ == "collecting"@
    &&& row.backend_name@ == backend_name
    &&& row.backend_execution_id is Some
    &&& row.backend_execution_id->0@ == execution
}

/// A build has not ended.
pub open spec fn is_open(row: SharedBuildRow) -> bool {
    row.state@ == "claimed"@ || row.state@ == "running"@ || row.state@ == "collecting"@
}

/// Rows are builds that have not ended, the oldest first and at most so many.
pub open spec fn are_open(
    listed: Seq<SharedBuildRow>,
    table: CourseRows,
    maximum_rows: i64,
) -> bool {
    &&& listed.len() <= maximum_rows
    &&& forall|i: int|
        0 <= i < listed.len() ==> table.builds.contains_key((#[trigger] listed[i]).derivation_path@)
            && table.builds[listed[i].derivation_path@] == listed[i] && is_open(listed[i])
    &&& forall|i: int, j: int|
        0 <= i < j < listed.len() ==> (#[trigger] listed[i]).created_at <= (
        #[trigger] listed[j]).created_at && listed[i].derivation_path@ != listed[j].derivation_path@
    &&& forall|path: Seq<char>| #[trigger]
        table.builds.contains_key(path) && is_open(table.builds[path]) ==> listed.len()
            == maximum_rows || is_listed(listed, path)
}

/// A build is among rows.
pub open spec fn is_listed(listed: Seq<SharedBuildRow>, path: Seq<char>) -> bool {
    exists|i: int| 0 <= i < listed.len() && (#[trigger] listed[i]).derivation_path@ == path
}

/// What statements do to builds and the attempts at them.
pub open spec fn course_changes(
    before: CourseRows,
    statement: Statement,
    reply: Reply,
    after: CourseRows,
) -> bool {
    match statement {
        Statement::Begin | Statement::Commit | Statement::LockQuotaSubject { .. } => reply is Done
            && after == before,
        Statement::LockQueuedSubject { derivation_path } => after == before && match reply {
            Reply::Text(None) => !before.is_queued(derivation_path@),
            Reply::Text(Some(Some(subject))) => before.is_queued(derivation_path@) && subject@
                == before.subjects[derivation_path@],
            _ => false,
        },
        Statement::CountActiveSharedBuilds { quota_subject } => after == before && match reply {
            Reply::Count(counted) => counted == before.active(quota_subject@).len(),
            _ => false,
        },
        Statement::StartClaimedSharedBuild { derivation_path } => {
            let path = derivation_path@;
            if before.builds.contains_key(path) && before.builds[path].state@ == "claimed"@ {
                match reply {
                    Reply::SharedBuild(Some(row)) => is_started(row, before.builds[path]) && after
                        == (CourseRows { builds: before.builds.insert(path, row), ..before }),
                    _ => false,
                }
            } else {
                reply == Reply::SharedBuild(None) && after == before
            }
        },
        Statement::ReadNextAttemptOrdinal { derivation_path } => after == before && match reply {
            Reply::Ordinal(ordinal) => is_next_ordinal(before, derivation_path@, ordinal),
            _ => false,
        },
        Statement::InsertRunningAttempt {
            derivation_path,
            ordinal,
            backend_name,
            backend_kind,
            backend_execution_id,
        } => match reply {
            Reply::SharedAttempt(Some(row)) => {
                &&& !before.attempts.contains_key(row.attempt_id)
                &&& row.derivation_path@ == derivation_path@
                &&& row.ordinal == ordinal
                &&& row.backend_name@ == backend_name@
                &&& row.backend_kind@ == backend_kind@
                &&& shared_builds::same_options(row.backend_execution_id, backend_execution_id)
                &&& row.state@ == "running"@
                &&& row.started_at is Some
                &&& row.collecting_at is None
                &&& row.completed_at is None
                &&& after == (CourseRows {
                    attempts: before.attempts.insert(row.attempt_id, row),
                    ..before
                })
            },
            _ => false,
        },
        Statement::CollectRunningSharedBuild { derivation_path } => {
            let path = derivation_path@;
            if before.builds.contains_key(path) && before.builds[path].state@ == "running"@ {
                match reply {
                    Reply::SharedBuild(Some(row)) => is_collected(row, before.builds[path]) && after
                        == (CourseRows { builds: before.builds.insert(path, row), ..before }),
                    _ => false,
                }
            } else {
                reply == Reply::SharedBuild(None) && after == before
            }
        },
        Statement::CollectRunningAttempts { derivation_path } => match reply {
            Reply::Changed(changed) => are_moved(
                before,
                after,
                derivation_path@,
                "collecting"@,
                changed as nat,
                before.running_attempts(derivation_path@),
            ),
            _ => false,
        },
        Statement::LockSharedBuildState { derivation_path } => after == before && match reply {
            Reply::Text(None) => !before.builds.contains_key(derivation_path@),
            Reply::Text(Some(Some(state))) => before.builds.contains_key(derivation_path@) && state@
                == before.builds[derivation_path@].state@,
            _ => false,
        },
        Statement::CompleteSharedBuild {
            derivation_path,
            state,
            result_metadata,
            failure_classification,
            expires_after_seconds,
        } => if before.builds.contains_key(derivation_path@) {
            match reply {
                Reply::SharedBuild(Some(row)) => {
                    &&& is_ended(
                        row,
                        before.builds[derivation_path@],
                        state@,
                        result_metadata@,
                        failure_classification,
                        expires_after_seconds as int,
                    )
                    &&& after == (CourseRows {
                        builds: before.builds.insert(derivation_path@, row),
                        ..before
                    })
                },
                _ => false,
            }
        } else {
            reply == Reply::SharedBuild(None) && after == before
        },
        Statement::CompleteActiveAttempt { derivation_path, state } => {
            let ended = before.active_attempts(derivation_path@);
            match reply {
                Reply::AttemptId(None) => ended.is_empty() && after == before,
                Reply::AttemptId(Some(id)) => ended.contains(id) && are_moved(
                    before,
                    after,
                    derivation_path@,
                    state@,
                    ended.len(),
                    ended,
                ),
                _ => false,
            }
        },
        Statement::InsertAttemptOutcome { attempt_id, classification, result_metadata } => {
            let row = after.outcomes[attempt_id];
            &&& reply == Reply::Changed(1)
            &&& row.attempt_id == attempt_id
            &&& row.classification@ == classification@
            &&& crypto::json_equal(row.result_metadata@, result_metadata@)
            &&& after == (CourseRows { outcomes: before.outcomes.insert(attempt_id, row), ..before })
        },
        Statement::ReadSharedBuild { derivation_path } => after == before
            && if before.builds.contains_key(derivation_path@) {
            reply == Reply::SharedBuild(Some(before.builds[derivation_path@]))
        } else {
            reply == Reply::SharedBuild(None)
        },
        Statement::ReadSharedBuildByExecution { backend_name, backend_execution_id } => after
            == before && match reply {
            Reply::SharedBuild(Some(row)) => before.builds.contains_key(row.derivation_path@)
                && before.builds[row.derivation_path@] == row && is_executed(
                row,
                backend_name@,
                backend_execution_id@,
            ),
            Reply::SharedBuild(None) => forall|path: Seq<char>| #[trigger]
                before.builds.contains_key(path) ==> !is_executed(
                    before.builds[path],
                    backend_name@,
                    backend_execution_id@,
                ),
            _ => false,
        },
        Statement::CountSharedBuilds => after == before && match reply {
            Reply::Counts(queued, running, collecting) => queued == before.queued().len() && running
                == before.in_state("running"@).len() && collecting == before.in_state(
                "collecting"@,
            ).len(),
            _ => false,
        },
        Statement::ReadActiveSharedBuilds { maximum_rows } => after == before && match reply {
            Reply::SharedBuilds(listed) => are_open(listed@, before, maximum_rows),
            _ => false,
        },
        Statement::ReadLatestAttempt { derivation_path } => after == before && match reply {
            Reply::SharedAttempt(Some(row)) => is_latest(before, derivation_path@, row),
            Reply::SharedAttempt(None) => forall|id: i64| #[trigger]
                before.attempts.contains_key(id) ==> before.attempts[id].derivation_path@
                    != derivation_path@,
            _ => false,
        },
        Statement::ReadAttemptOutcome { attempt_id } => after == before
            && if before.outcomes.contains_key(attempt_id) {
            reply == Reply::SharedOutcome(Some(before.outcomes[attempt_id]))
        } else {
            reply == Reply::SharedOutcome(None)
        },
        _ => true,
    }
}

/// Attempts, so many, came into a state; the others and all else stay.
pub open spec fn are_moved(
    before: CourseRows,
    after: CourseRows,
    path: Seq<char>,
    state: Seq<char>,
    changed: nat,
    moved: Set<i64>,
) -> bool {
    &&& changed == moved.len()
    &&& after == (CourseRows { attempts: after.attempts, ..before })
    &&& after.attempts.dom() == before.attempts.dom()
    &&& forall|id: i64| #[trigger]
        before.attempts.contains_key(id) ==> if moved.contains(id) {
            is_moved(after.attempts[id], before.attempts[id], state)
        } else {
            after.attempts[id] == before.attempts[id]
        }
}

/// The model of builds and the attempts at them.
pub open spec fn on_courses() -> spec_fn(CourseRows, Statement, Reply, CourseRows) -> bool {
    |before: CourseRows, statement: Statement, reply: Reply, after: CourseRows|
        course_changes(before, statement, reply, after)
}

/// The start of a claimed build.
pub open spec fn starting(
    database_url: Seq<char>,
    derivation_path: String,
    rules: SharedBuildRules,
) -> spec_fn(Seq<Reply>) -> Step<SharedBuild, SharedBuildError> {
    |history: Seq<Reply>|
        shared_builds::start_step(database_url, derivation_path, rules, history)
}

/// The start of a queued build.
pub open spec fn starting_queued(
    database_url: Seq<char>,
    derivation_path: String,
    maximum_active_builds: usize,
    rules: SharedBuildRules,
) -> spec_fn(Seq<Reply>) -> Step<SharedBuild, SharedBuildError> {
    |history: Seq<Reply>|
        shared_builds::start_queued_step(
            database_url,
            derivation_path,
            maximum_active_builds,
            rules,
            history,
        )
}

/// The collection of outputs.
pub open spec fn collecting(
    database_url: Seq<char>,
    derivation_path: String,
    rules: SharedBuildRules,
) -> spec_fn(Seq<Reply>) -> Step<SharedBuild, SharedBuildError> {
    |history: Seq<Reply>|
        shared_builds::collect_step(database_url, derivation_path, rules, history)
}

proof fn states_differ()
    ensures
        "claimed"@.len() == 7 && "claimed"@[0] == 'c',
        "running"@.len() == 7 && "running"@[0] == 'r',
        "collecting"@.len() == 10,
        "succeeded"@.len() == 9,
        "failed"@.len() == 6,
{
    reveal_strlit("claimed");
    reveal_strlit("running");
    reveal_strlit("collecting");
    reveal_strlit("succeeded");
    reveal_strlit("failed");
}

/// A build started: it runs, it is what was returned, and there is one attempt more, at it, which
/// runs on its backend under the next number. All else is as before.
pub open spec fn has_started(
    before: CourseRows,
    after: CourseRows,
    path: Seq<char>,
    build: SharedBuild,
    id: i64,
    rules: SharedBuildRules,
) -> bool {
    let row = after.builds[path];
    let attempt = after.attempts[id];
    &&& is_started(row, before.builds[path])
    &&& after.builds == before.builds.insert(path, row)
    &&& shared_builds::build_of(row, rules) == Some(build)
    &&& build.state == SharedBuildState::Running
    &&& !before.attempts.contains_key(id)
    &&& after.attempts == before.attempts.insert(id, attempt)
    &&& attempt.derivation_path@ == path
    &&& is_next_ordinal(before, path, attempt.ordinal)
    &&& attempt.backend_name@ == row.backend_name@
    &&& attempt.backend_kind@ == row.backend_kind@
    &&& shared_builds::same_options(attempt.backend_execution_id, row.backend_execution_id)
    &&& attempt.state@ == "running"@
    &&& attempt.started_at is Some
    &&& after.is_one_active(path, id)
    &&& after.subjects == before.subjects
    &&& after.outcomes == before.outcomes
}

/// A build that may start can be read, and its kind has one name.
proof fn started_build_is_read(row: SharedBuildRow, before: SharedBuildRow, rules: SharedBuildRules)
    requires
        is_started(row, before),
        before.state@ == "claimed"@,
        shared_builds::build_of(before, rules) is Some,
    ensures
        shared_builds::build_of(row, rules) matches Some(build) && {
            &&& build.state == SharedBuildState::Running
            &&& build.derivation_path == row.derivation_path
            &&& build.backend_name == row.backend_name
            &&& build.backend_execution_id == row.backend_execution_id
            &&& build.backend_kind.spec_name()@ == row.backend_kind@
        },
{
    states_differ();
}

/// After a start every build still goes with its attempt.
proof fn start_keeps_the_course(
    before: CourseRows,
    after: CourseRows,
    path: Seq<char>,
    id: i64,
)
    requires
        before.well_formed(),
        before.builds.contains_key(path),
        before.builds[path].state@ == "claimed"@,
        is_started(after.builds[path], before.builds[path]),
        after.builds == before.builds.insert(path, after.builds[path]),
        !before.attempts.contains_key(id),
        after.attempts == before.attempts.insert(id, after.attempts[id]),
        after.attempts[id].attempt_id == id,
        after.attempts[id].derivation_path@ == path,
        after.attempts[id].state@ == "running"@,
    ensures
        after.well_formed(),
        after.is_one_active(path, id),
{
    states_differ();
    assert(before.goes_with_its_attempt(path));
    assert(after.is_one_active(path, id)) by {
        assert forall|other: i64| #[trigger]
            after.attempts.contains_key(other) && is_active(
                after.attempts[other],
                path,
            ) implies other
            == id by {
            if other != id {
                assert(before.attempts.contains_key(other));
            }
        }
    }
    assert forall|other: Seq<char>| #[trigger] after.builds.contains_key(other) implies after.builds[
        other
    ].derivation_path@ == other && after.goes_with_its_attempt(other) by {
        if other != path {
            assert(before.builds.contains_key(other));
            others_keep_their_attempt(before, after, path, other, id);
        }
    }
    assert forall|other: i64| #[trigger] after.attempts.contains_key(other) implies after.attempts[
        other
    ].attempt_id == other by {
        if other != id {
            assert(before.attempts.contains_key(other));
        }
    }
}

/// A change of one build and one attempt at it leaves the others with theirs.
proof fn others_keep_their_attempt(
    before: CourseRows,
    after: CourseRows,
    path: Seq<char>,
    other: Seq<char>,
    id: i64,
)
    requires
        before.goes_with_its_attempt(other),
        other != path,
        after.builds[other] == before.builds[other],
        before.attempts.contains_key(id) ==> before.attempts[id].derivation_path@ == path,
        after.attempts == before.attempts.insert(id, after.attempts[id]),
        after.attempts[id].derivation_path@ == path,
    ensures
        after.goes_with_its_attempt(other),
{
    let state = before.builds[other].state@;
    if state == "running"@ || state == "collecting"@ {
        let its = choose|its: i64| #[trigger]
            before.is_one_active(other, its) && before.attempts[its].state@ == state;
        assert(its != id);
        assert forall|one: i64| #[trigger]
            after.attempts.contains_key(one) && is_active(after.attempts[one], other) implies one
            == its by {
            assert(one != id);
            assert(before.attempts.contains_key(one));
        }
        assert(after.is_one_active(other, its));
    } else {
        assert forall|one: i64| #[trigger] after.attempts.contains_key(one) implies !is_active(
            after.attempts[one],
            other,
        ) by {
            if one != id {
                assert(before.attempts.contains_key(one));
            }
        }
    }
}

/// A claimed build starts, with a new attempt at it, and every build goes on with its own attempt.
/// One that is not claimed is refused, and nothing changes.
pub proof fn claimed_build_starts(
    database_url: Seq<char>,
    derivation_path: String,
    rules: SharedBuildRules,
    tables: Seq<CourseRows>,
    history: Seq<Reply>,
)
    requires
        shared_builds::identity_valid(database_url, derivation_path@, rules),
        tables[0].well_formed(),
        tables[0].builds.contains_key(derivation_path@) ==> shared_builds::build_of(
            tables[0].builds[derivation_path@],
            rules,
        ) is Some,
        rows::ran(
            starting(database_url, derivation_path, rules),
            on_courses(),
            tables,
            history,
        ),
    ensures
        ({
            let path = derivation_path@;
            let step = shared_builds::start_step(database_url, derivation_path, rules, history);
            &&& tables.last().well_formed()
            &&& if tables[0].builds.contains_key(path) && tables[0].builds[path].state@
                == "claimed"@ {
                step matches Step::Finish(Ok(build)) && exists|id: i64| #[trigger]
                    has_started(tables[0], tables.last(), path, build, id, rules)
            } else {
                step == shared_builds::failed::<SharedBuild>(SharedBuildFailure::InvalidState)
                    && tables.last() == tables[0]
            }
        }),
{
    let operation = starting(database_url, derivation_path, rules);
    let path = derivation_path@;
    next_is_done(operation, on_courses(), tables, history, 0);
    next_is_done(operation, on_courses(), tables, history, 1);
    if tables[0].builds.contains_key(path) && tables[0].builds[path].state@ == "claimed"@ {
        let row = history[1]->SharedBuild_0->0;
        started_build_is_read(row, tables[0].builds[path], rules);
        let build = shared_builds::build_of(row, rules)->0;
        next_is_done(operation, on_courses(), tables, history, 2);
        next_is_done(operation, on_courses(), tables, history, 3);
        let attempt = history[3]->SharedAttempt_0->0;
        let id = attempt.attempt_id;
        kinds_are_named(attempt.backend_kind@, build);
        next_is_done(operation, on_courses(), tables, history, 4);
        end_is_reached(operation, on_courses(), tables, history, 5);
        start_keeps_the_course(tables[0], tables.last(), path, id);
        assert(has_started(tables[0], tables.last(), path, build, id, rules));
    } else {
        end_is_reached(operation, on_courses(), tables, history, 2);
    }
}

/// The name of a kind is that of a kind.
proof fn kinds_are_named(name: Seq<char>, build: SharedBuild)
    requires
        name == build.backend_kind.spec_name()@,
    ensures
        crate::service::config::model::BackendKind::named(name) is Some,
        shared_builds::SharedBuildAttemptState::named("running"@) is Some,
{
    states_differ();
}

/// A queued build starts while fewer builds of its subject run or collect than may, and else is
/// refused for its quota. One that is not queued is refused. Where it does not start, nothing
/// changes.
pub proof fn queued_build_starts(
    database_url: Seq<char>,
    derivation_path: String,
    maximum_active_builds: usize,
    rules: SharedBuildRules,
    tables: Seq<CourseRows>,
    history: Seq<Reply>,
)
    requires
        shared_builds::identity_valid(database_url, derivation_path@, rules),
        1 <= maximum_active_builds <= 65_536,
        tables[0].well_formed(),
        tables[0].builds.contains_key(derivation_path@) ==> shared_builds::build_of(
            tables[0].builds[derivation_path@],
            rules,
        ) is Some,
        rows::ran(
            starting_queued(database_url, derivation_path, maximum_active_builds, rules),
            on_courses(),
            tables,
            history,
        ),
    ensures
        ({
            let path = derivation_path@;
            let before = tables[0];
            let step = shared_builds::start_queued_step(
                database_url,
                derivation_path,
                maximum_active_builds,
                rules,
                history,
            );
            &&& tables.last().well_formed()
            &&& if !before.is_queued(path) {
                step == shared_builds::failed::<SharedBuild>(SharedBuildFailure::InvalidState)
                    && tables.last() == before
            } else if before.active(before.subjects[path]).len() >= maximum_active_builds {
                step == shared_builds::failed::<SharedBuild>(SharedBuildFailure::Quota)
                    && tables.last() == before
            } else {
                step matches Step::Finish(Ok(build)) && exists|id: i64| #[trigger]
                    has_started(before, tables.last(), path, build, id, rules)
            }
        }),
{
    let operation = starting_queued(database_url, derivation_path, maximum_active_builds, rules);
    let path = derivation_path@;
    let before = tables[0];
    next_is_done(operation, on_courses(), tables, history, 0);
    next_is_done(operation, on_courses(), tables, history, 1);
    if !before.is_queued(path) {
        end_is_reached(operation, on_courses(), tables, history, 2);
    } else {
        next_is_done(operation, on_courses(), tables, history, 2);
        next_is_done(operation, on_courses(), tables, history, 3);
        if before.active(before.subjects[path]).len() >= maximum_active_builds {
            end_is_reached(operation, on_courses(), tables, history, 4);
        } else {
            next_is_done(operation, on_courses(), tables, history, 4);
            let row = history[4]->SharedBuild_0->0;
            started_build_is_read(row, before.builds[path], rules);
            let build = shared_builds::build_of(row, rules)->0;
            next_is_done(operation, on_courses(), tables, history, 5);
            next_is_done(operation, on_courses(), tables, history, 6);
            let attempt = history[6]->SharedAttempt_0->0;
            let id = attempt.attempt_id;
            kinds_are_named(attempt.backend_kind@, build);
            next_is_done(operation, on_courses(), tables, history, 7);
            end_is_reached(operation, on_courses(), tables, history, 8);
            start_keeps_the_course(before, tables.last(), path, id);
            assert(has_started(before, tables.last(), path, build, id, rules));
        }
    }
}

/// A build and its attempt came into a state together: all else is as before.
pub open spec fn moved_together(
    before: CourseRows,
    after: CourseRows,
    path: Seq<char>,
    id: i64,
) -> bool {
    &&& before.is_one_active(path, id)
    &&& after.builds == before.builds.insert(path, after.builds[path])
    &&& after.attempts == before.attempts.insert(id, after.attempts[id])
    &&& after.builds[path].derivation_path == before.builds[path].derivation_path
    &&& is_moved(after.attempts[id], before.attempts[id], after.builds[path].state@)
    &&& after.subjects == before.subjects
}

/// After a move every build still goes with its attempt.
proof fn move_keeps_the_course(before: CourseRows, after: CourseRows, path: Seq<char>, id: i64)
    requires
        before.well_formed(),
        before.builds.contains_key(path),
        moved_together(before, after, path, id),
        after.builds[path].state@ == "collecting"@ || after.builds[path].state@ == "succeeded"@
            || after.builds[path].state@ == "failed"@,
    ensures
        after.well_formed(),
{
    states_differ();
    let state = after.builds[path].state@;
    assert forall|other: Seq<char>| #[trigger] after.builds.contains_key(other) implies after.builds[
        other
    ].derivation_path@ == other && after.goes_with_its_attempt(other) by {
        assert(before.builds.contains_key(other));
        if other != path {
            others_keep_their_attempt(before, after, path, other, id);
        } else if state == "collecting"@ {
            assert forall|one: i64| #[trigger]
                after.attempts.contains_key(one) && is_active(after.attempts[one], path) implies one
                == id by {
                assert(before.attempts.contains_key(one));
            }
            assert(after.is_one_active(path, id));
        } else {
            assert forall|one: i64| #[trigger] after.attempts.contains_key(one) implies !is_active(
                after.attempts[one],
                path,
            ) by {
                assert(before.attempts.contains_key(one));
            }
        }
    }
    assert forall|other: i64| #[trigger] after.attempts.contains_key(other) implies after.attempts[
        other
    ].attempt_id == other by {
        assert(before.attempts.contains_key(other));
    }
}

/// Where one attempt is active, it alone is moved.
proof fn one_is_moved(
    before: CourseRows,
    after: CourseRows,
    path: Seq<char>,
    state: Seq<char>,
    changed: nat,
    moved: Set<i64>,
    id: i64,
)
    requires
        are_moved(before, after, path, state, changed, moved),
        before.is_one_active(path, id),
        moved.contains(id),
        forall|other: i64| #[trigger]
            moved.contains(other) ==> before.attempts.contains_key(other) && is_active(
                before.attempts[other],
                path,
            ),
    ensures
        changed == 1,
        after.attempts == before.attempts.insert(id, after.attempts[id]),
        is_moved(after.attempts[id], before.attempts[id], state),
{
    assert(moved =~= set![id]);
    assert(before.attempts.contains_key(id));
    assert(after.attempts =~= before.attempts.insert(id, after.attempts[id])) by {
        assert forall|other: i64| #[trigger]
            before.attempts.contains_key(other) && other != id implies after.attempts[other]
            == before.attempts[other] by {
            assert(!moved.contains(other));
        }
        assert(after.attempts.dom() =~= before.attempts.insert(id, after.attempts[id]).dom());
    }
}

/// The outputs of a running build are collected: it and its attempt collect from then on, and all
/// else is as before. A build that does not run is refused, and nothing changes.
pub proof fn running_build_is_collected(
    database_url: Seq<char>,
    derivation_path: String,
    rules: SharedBuildRules,
    tables: Seq<CourseRows>,
    history: Seq<Reply>,
)
    requires
        shared_builds::identity_valid(database_url, derivation_path@, rules),
        tables[0].well_formed(),
        tables[0].builds.contains_key(derivation_path@) ==> shared_builds::build_of(
            tables[0].builds[derivation_path@],
            rules,
        ) is Some,
        rows::ran(
            collecting(database_url, derivation_path, rules),
            on_courses(),
            tables,
            history,
        ),
    ensures
        ({
            let path = derivation_path@;
            let before = tables[0];
            let after = tables.last();
            let step = shared_builds::collect_step(database_url, derivation_path, rules, history);
            &&& after.well_formed()
            &&& if before.builds.contains_key(path) && before.builds[path].state@ == "running"@ {
                step matches Step::Finish(Ok(build)) && {
                    &&& is_collected(after.builds[path], before.builds[path])
                    &&& shared_builds::build_of(after.builds[path], rules) == Some(build)
                    &&& build.state == SharedBuildState::Collecting
                    &&& after.outcomes == before.outcomes
                    &&& exists|id: i64| #[trigger]
                        moved_together(before, after, path, id) && after.attempts[id].state@
                            == "collecting"@
                }
            } else {
                step == shared_builds::failed::<SharedBuild>(SharedBuildFailure::InvalidState)
                    && after == before
            }
        }),
{
    let operation = collecting(database_url, derivation_path, rules);
    let path = derivation_path@;
    let before = tables[0];
    states_differ();
    next_is_done(operation, on_courses(), tables, history, 0);
    next_is_done(operation, on_courses(), tables, history, 1);
    if before.builds.contains_key(path) && before.builds[path].state@ == "running"@ {
        assert(before.goes_with_its_attempt(path));
        let id = choose|id: i64| #[trigger]
            before.is_one_active(path, id) && before.attempts[id].state@ == "running"@;
        next_is_done(operation, on_courses(), tables, history, 2);
        let middle = tables[2];
        let moved = middle.running_attempts(path);
        assert(middle.is_one_active(path, id));
        one_is_moved(
            middle,
            tables[3],
            path,
            "collecting"@,
            history[2]->Changed_0 as nat,
            moved,
            id,
        );
        next_is_done(operation, on_courses(), tables, history, 3);
        end_is_reached(operation, on_courses(), tables, history, 4);
        assert(moved_together(before, tables.last(), path, id));
        move_keeps_the_course(before, tables.last(), path, id);
    } else {
        end_is_reached(operation, on_courses(), tables, history, 2);
    }
}

/// What a build ends with is in bounds: an object of at most a mebibyte, remembered for at most a
/// day, and a classification exactly where it failed.
pub open spec fn may_be_recorded(
    state: SharedBuildState,
    failure_classification: Option<String>,
    result_metadata: Seq<char>,
    retention: Span,
) -> bool {
    &&& crypto::json_is_object(result_metadata) == Some(true)
    &&& text::byte_length(result_metadata) <= 1_048_576
    &&& 0 < retention.total() <= 86_400 * 1_000_000_000
    &&& match failure_classification {
        Some(classification) => state is Failed && shared_builds::is_plain(
            classification@,
            MAX_IPC_COMPONENT_BYTES as nat,
        ),
        None => state is Succeeded,
    }
}

/// A build ended as it was to, and is what was returned.
pub open spec fn has_ended(
    before: CourseRows,
    after: CourseRows,
    path: Seq<char>,
    state: SharedBuildState,
    failure_classification: Option<String>,
    result_metadata: Seq<char>,
    retention: Span,
    rules: SharedBuildRules,
    build: SharedBuild,
) -> bool {
    &&& is_ended(
        after.builds[path],
        before.builds[path],
        if state is Succeeded {
            "succeeded"@
        } else {
            "failed"@
        },
        result_metadata,
        failure_classification,
        retention.seconds as int,
    )
    &&& after.builds == before.builds.insert(path, after.builds[path])
    &&& shared_builds::build_of(after.builds[path], rules) == Some(build)
    &&& build.state == state
    &&& after.subjects == before.subjects
}

/// The attempt at a build ended with it, in the same state, and its outcome is recorded.
pub open spec fn attempt_ended(
    before: CourseRows,
    after: CourseRows,
    path: Seq<char>,
    id: i64,
    classification: Seq<char>,
    result_metadata: Seq<char>,
) -> bool {
    let outcome = after.outcomes[id];
    &&& moved_together(before, after, path, id)
    &&& after.attempts[id].state@ == after.builds[path].state@
    &&& after.attempts[id].completed_at is Some
    &&& after.outcomes == before.outcomes.insert(id, outcome)
    &&& outcome.attempt_id == id
    &&& outcome.classification@ == classification
    &&& crypto::json_equal(outcome.result_metadata@, result_metadata)
}

/// A build that is to end so can be read again.
proof fn ended_build_is_read(
    row: SharedBuildRow,
    before: SharedBuildRow,
    state: SharedBuildState,
    failure_classification: Option<String>,
    result_metadata: Seq<char>,
    retention: Span,
    rules: SharedBuildRules,
)
    requires
        shared_builds::build_of(before, rules) is Some,
        may_be_recorded(state, failure_classification, result_metadata, retention),
        is_ended(
            row,
            before,
            if state is Succeeded {
                "succeeded"@
            } else {
                "failed"@
            },
            result_metadata,
            failure_classification,
            retention.seconds as int,
        ),
    ensures
        shared_builds::build_of(row, rules) matches Some(build) && build.state == state,
{
    states_differ();
}

/// A build can end so: with success only while it collects.
pub open spec fn can_end(before: CourseRows, path: Seq<char>, state: SharedBuildState) -> bool {
    &&& before.builds.contains_key(path)
    &&& if state is Succeeded {
        before.builds[path].state@ == "collecting"@
    } else {
        is_open(before.builds[path])
    }
}

/// A build that can end does, as it was to. Where it was started, its one active attempt ends with
/// it and in the same state, succeeded with a build that succeeded and failed with one that failed,
/// and has the outcome of the build. One that cannot end is refused, and nothing changes.
pub proof fn build_ends_with_its_attempt(
    database_url: Seq<char>,
    derivation_path: String,
    state: SharedBuildState,
    failure_classification: Option<String>,
    classification: String,
    result_metadata: String,
    retention: Span,
    rules: SharedBuildRules,
    tables: Seq<CourseRows>,
    history: Seq<Reply>,
)
    requires
        shared_builds::identity_valid(database_url, derivation_path@, rules),
        may_be_recorded(state, failure_classification, result_metadata@, retention),
        tables[0].well_formed(),
        tables[0].builds.contains_key(derivation_path@) ==> shared_builds::build_of(
            tables[0].builds[derivation_path@],
            rules,
        ) is Some,
        rows::ran(
            builds::completing(
                database_url,
                derivation_path,
                state,
                failure_classification,
                classification,
                result_metadata,
                retention,
                rules,
            ),
            on_courses(),
            tables,
            history,
        ),
    ensures
        ({
            let path = derivation_path@;
            let before = tables[0];
            let after = tables.last();
            let step = shared_builds::complete_step(
                database_url,
                derivation_path,
                state,
                failure_classification,
                classification,
                result_metadata,
                retention,
                rules,
                history,
            );
            &&& after.well_formed()
            &&& if can_end(before, path, state) {
                &&& step matches Step::Finish(Ok(build)) && has_ended(
                    before,
                    after,
                    path,
                    state,
                    failure_classification,
                    result_metadata@,
                    retention,
                    rules,
                    build,
                )
                &&& if before.builds[path].state@ == "claimed"@ {
                    after.attempts == before.attempts && after.outcomes == before.outcomes
                } else {
                    exists|id: i64| #[trigger]
                        attempt_ended(
                            before,
                            after,
                            path,
                            id,
                            classification@,
                            result_metadata@,
                        )
                }
            } else {
                step == shared_builds::failed::<SharedBuild>(SharedBuildFailure::InvalidState)
                    && after == before
            }
        }),
{
    let operation = builds::completing(
        database_url,
        derivation_path,
        state,
        failure_classification,
        classification,
        result_metadata,
        retention,
        rules,
    );
    let path = derivation_path@;
    let before = tables[0];
    states_differ();
    next_is_done(operation, on_courses(), tables, history, 0);
    next_is_done(operation, on_courses(), tables, history, 1);
    if can_end(before, path, state) {
        next_is_done(operation, on_courses(), tables, history, 2);
        let row = history[2]->SharedBuild_0->0;
        ended_build_is_read(
            row,
            before.builds[path],
            state,
            failure_classification,
            result_metadata@,
            retention,
            rules,
        );
        let build = shared_builds::build_of(row, rules)->0;
        next_is_done(operation, on_courses(), tables, history, 3);
        if before.builds[path].state@ == "claimed"@ {
            end_is_reached(operation, on_courses(), tables, history, 4);
            claimed_end_keeps_the_course(before, tables.last(), path);
        } else {
            attempt_ends(
                operation,
                tables,
                history,
                derivation_path,
                state,
                classification,
                result_metadata,
                row,
                build,
                rules,
            );
        }
    } else {
        end_is_reached(operation, on_courses(), tables, history, 2);
    }
}

/// A build that was not started ends without an attempt.
proof fn claimed_end_keeps_the_course(before: CourseRows, after: CourseRows, path: Seq<char>)
    requires
        before.well_formed(),
        before.builds.contains_key(path),
        before.builds[path].state@ == "claimed"@,
        after.builds == before.builds.insert(path, after.builds[path]),
        after.builds[path].derivation_path == before.builds[path].derivation_path,
        after.builds[path].state@ == "succeeded"@ || after.builds[path].state@ == "failed"@,
        after.attempts == before.attempts,
    ensures
        after.well_formed(),
{
    states_differ();
    assert forall|other: Seq<char>| #[trigger] after.builds.contains_key(other) implies after.builds[
        other
    ].derivation_path@ == other && after.goes_with_its_attempt(other) by {
        assert(before.builds.contains_key(other));
        let state = before.builds[other].state@;
        if other != path && (state == "running"@ || state == "collecting"@) {
            let its = choose|its: i64| #[trigger]
                before.is_one_active(other, its) && before.attempts[its].state@ == state;
            assert(after.is_one_active(other, its));
        } else {
            assert(before.is_idle(other));
        }
    }
}

proof fn attempt_ends(
    operation: spec_fn(Seq<Reply>) -> Step<SharedBuild, SharedBuildError>,
    tables: Seq<CourseRows>,
    history: Seq<Reply>,
    derivation_path: String,
    state: SharedBuildState,
    classification: String,
    result_metadata: String,
    row: SharedBuildRow,
    build: SharedBuild,
    rules: SharedBuildRules,
)
    requires
        rows::ran(operation, on_courses(), tables, history),
        history.len() > 3,
        tables[0].well_formed(),
        tables[0].builds.contains_key(derivation_path@),
        tables[0].builds[derivation_path@].state@ == "running"@
            || tables[0].builds[derivation_path@].state@ == "collecting"@,
        tables[3] == (CourseRows {
            builds: tables[0].builds.insert(derivation_path@, row),
            ..tables[0]
        }),
        state is Succeeded || state is Failed,
        row.derivation_path == tables[0].builds[derivation_path@].derivation_path,
        row.state@ == (if state is Succeeded {
            "succeeded"@
        } else {
            "failed"@
        }),
        shared_builds::build_of(row, rules) == Some(build),
        forall|i: int|
            3 <= i <= history.len() ==> #[trigger] operation(history.take(i))
                == shared_builds::end_attempt_step(
                derivation_path,
                state,
                classification,
                result_metadata,
                row,
                rules,
                history.take(i),
            ),
    ensures
        operation(history) == Step::<SharedBuild, SharedBuildError>::Finish(Ok(build)),
        tables.last().well_formed(),
        tables.last().builds == tables[0].builds.insert(derivation_path@, row),
        tables.last().subjects == tables[0].subjects,
        exists|id: i64| #[trigger]
            attempt_ended(
                tables[0],
                tables.last(),
                derivation_path@,
                id,
                classification@,
                result_metadata@,
            ),
{
    states_differ();
    let path = derivation_path@;
    let before = tables[0];
    let middle = tables[3];
    assert(before.goes_with_its_attempt(path));
    let id = choose|id: i64| #[trigger]
        before.is_one_active(path, id) && before.attempts[id].state@ == before.builds[path].state@;
    assert(middle.is_one_active(path, id));
    let moved = middle.active_attempts(path);
    assert(moved.contains(id));
    next_is_done(operation, on_courses(), tables, history, 3);
    assert(history[3] matches Reply::AttemptId(Some(found)) && found == id);
    one_is_moved(middle, tables[4], path, row.state@, moved.len(), moved, id);
    next_is_done(operation, on_courses(), tables, history, 4);
    next_is_done(operation, on_courses(), tables, history, 5);
    end_is_reached(operation, on_courses(), tables, history, 6);
    let after = tables.last();
    assert(moved_together(before, after, path, id));
    move_keeps_the_course(before, after, path, id);
    assert(attempt_ended(before, after, path, id, classification@, result_metadata@));
}

/// The reading of the build of a derivation.
pub open spec fn reading(
    database_url: Seq<char>,
    derivation_path: String,
    rules: SharedBuildRules,
) -> spec_fn(Seq<Reply>) -> Step<Option<SharedBuild>, SharedBuildError> {
    |history: Seq<Reply>|
        shared_builds::read_build_step(database_url, derivation_path, rules, history)
}

/// The build of a derivation is read as it is recorded, and nothing where there is none.
pub proof fn recorded_build_is_read(
    database_url: Seq<char>,
    derivation_path: String,
    rules: SharedBuildRules,
    tables: Seq<CourseRows>,
    history: Seq<Reply>,
)
    requires
        shared_builds::identity_valid(database_url, derivation_path@, rules),
        tables[0].builds.contains_key(derivation_path@) ==> shared_builds::build_of(
            tables[0].builds[derivation_path@],
            rules,
        ) is Some,
        rows::ran(reading(database_url, derivation_path, rules), on_courses(), tables, history),
    ensures
        shared_builds::read_build_step(
            database_url,
            derivation_path,
            rules,
            history,
        ) matches Step::Finish(Ok(read)) && if tables[0].builds.contains_key(derivation_path@) {
            read is Some && read == shared_builds::build_of(
                tables[0].builds[derivation_path@],
                rules,
            )
        } else {
            read is None
        },
        tables.last() == tables[0],
{
    let operation = reading(database_url, derivation_path, rules);
    next_is_done(operation, on_courses(), tables, history, 0);
    next_is_done(operation, on_courses(), tables, history, 1);
    end_is_reached(operation, on_courses(), tables, history, 2);
}

/// The reading of the build under an execution.
pub open spec fn reading_executed(
    database_url: Seq<char>,
    backend_name: String,
    backend_execution_id: String,
    rules: SharedBuildRules,
) -> spec_fn(Seq<Reply>) -> Step<Option<SharedBuild>, SharedBuildError> {
    |history: Seq<Reply>|
        shared_builds::executed_step(
            database_url,
            backend_name,
            backend_execution_id,
            rules,
            history,
        )
}

/// Where a build runs or collects under an execution of a backend, one that does is read; and
/// nothing is, where there is none.
pub proof fn executed_build_is_read(
    database_url: Seq<char>,
    backend_name: String,
    backend_execution_id: String,
    rules: SharedBuildRules,
    tables: Seq<CourseRows>,
    history: Seq<Reply>,
)
    requires
        !text::is_blank(database_url),
        shared_builds::is_plain(backend_name@, MAX_IPC_COMPONENT_BYTES as nat),
        shared_builds::is_plain(
            backend_execution_id@,
            rules.limits.maximum_store_path_bytes as nat,
        ),
        forall|path: Seq<char>| #[trigger]
            tables[0].builds.contains_key(path) ==> shared_builds::build_of(
                tables[0].builds[path],
                rules,
            ) is Some,
        rows::ran(
            reading_executed(database_url, backend_name, backend_execution_id, rules),
            on_courses(),
            tables,
            history,
        ),
    ensures
        shared_builds::executed_step(
            database_url,
            backend_name,
            backend_execution_id,
            rules,
            history,
        ) matches Step::Finish(Ok(read)) && match read {
            Some(build) => {
                let path = build.derivation_path@;
                &&& tables[0].builds.contains_key(path)
                &&& shared_builds::build_of(tables[0].builds[path], rules) == Some(build)
                &&& is_executed(
                    tables[0].builds[path],
                    backend_name@,
                    backend_execution_id@,
                )
            },
            None => forall|path: Seq<char>| #[trigger]
                tables[0].builds.contains_key(path) ==> !is_executed(
                    tables[0].builds[path],
                    backend_name@,
                    backend_execution_id@,
                ),
        },
        tables.last() == tables[0],
{
    let operation = reading_executed(database_url, backend_name, backend_execution_id, rules);
    next_is_done(operation, on_courses(), tables, history, 0);
    next_is_done(operation, on_courses(), tables, history, 1);
    end_is_reached(operation, on_courses(), tables, history, 2);
}

/// The count of builds.
pub open spec fn counting(database_url: Seq<char>) -> spec_fn(Seq<Reply>) -> Step<
    shared_builds::SharedBuildOperationalCounts,
    SharedBuildError,
> {
    |history: Seq<Reply>| shared_builds::counts_step(database_url, history)
}

/// Builds are counted as they are: those that wait, those that run and those that collect.
pub proof fn builds_are_counted(
    database_url: Seq<char>,
    tables: Seq<CourseRows>,
    history: Seq<Reply>,
)
    requires
        !text::is_blank(database_url),
        rows::ran(counting(database_url), on_courses(), tables, history),
    ensures
        shared_builds::counts_step(database_url, history) matches Step::Finish(Ok(counts)) && {
            &&& counts.queued == tables[0].queued().len()
            &&& counts.running == tables[0].in_state("running"@).len()
            &&& counts.collecting == tables[0].in_state("collecting"@).len()
        },
        tables.last() == tables[0],
{
    let operation = counting(database_url);
    next_is_done(operation, on_courses(), tables, history, 0);
    next_is_done(operation, on_courses(), tables, history, 1);
    end_is_reached(operation, on_courses(), tables, history, 2);
}

/// The reading of builds that have not ended.
pub open spec fn reading_open(
    database_url: Seq<char>,
    limit: usize,
    rules: SharedBuildRules,
) -> spec_fn(Seq<Reply>) -> Step<Seq<SharedBuild>, SharedBuildError> {
    |history: Seq<Reply>| shared_builds::active_step(database_url, limit, rules, history)
}

/// Builds that have not ended are read as they are recorded, each once and the oldest first. One is
/// left out only where there are more than were asked for.
pub proof fn open_builds_are_read(
    database_url: Seq<char>,
    limit: usize,
    rules: SharedBuildRules,
    tables: Seq<CourseRows>,
    history: Seq<Reply>,
)
    requires
        !text::is_blank(database_url),
        1 <= limit <= 256,
        forall|path: Seq<char>| #[trigger]
            tables[0].builds.contains_key(path) ==> shared_builds::build_of(
                tables[0].builds[path],
                rules,
            ) is Some,
        rows::ran(reading_open(database_url, limit, rules), on_courses(), tables, history),
    ensures
        shared_builds::active_step(
            database_url,
            limit,
            rules,
            history,
        ) matches Step::Finish(Ok(read)) && {
            &&& read.len() <= limit
            &&& forall|i: int|
                0 <= i < read.len() ==> {
                    let path = (#[trigger] read[i]).derivation_path@;
                    &&& tables[0].builds.contains_key(path)
                    &&& is_open(tables[0].builds[path])
                    &&& shared_builds::build_of(tables[0].builds[path], rules) == Some(read[i])
                }
            &&& forall|i: int, j: int|
                0 <= i < j < read.len() ==> (#[trigger] read[i]).created_at <= (
                #[trigger] read[j]).created_at && read[i].derivation_path@
                    != read[j].derivation_path@
            &&& forall|path: Seq<char>| #[trigger]
                tables[0].builds.contains_key(path) && is_open(tables[0].builds[path])
                    ==> read.len() == limit || exists|i: int|
                    0 <= i < read.len() && (#[trigger] read[i]).derivation_path@ == path
        },
        tables.last() == tables[0],
{
    let operation = reading_open(database_url, limit, rules);
    next_is_done(operation, on_courses(), tables, history, 0);
    next_is_done(operation, on_courses(), tables, history, 1);
    let listed = history[1]->SharedBuilds_0@;
    assert forall|i: int| 0 <= i < listed.len() implies shared_builds::build_of(
        #[trigger] listed[i],
        rules,
    ) is Some by {
        assert(tables[0].builds.contains_key(listed[i].derivation_path@));
    }
    end_is_reached(operation, on_courses(), tables, history, 2);
    let read = operation(history)->Finish_0->Ok_0;
    assert forall|path: Seq<char>| #[trigger]
        tables[0].builds.contains_key(path) && is_open(tables[0].builds[path]) implies read.len()
        == limit || exists|i: int|
        0 <= i < read.len() && (#[trigger] read[i]).derivation_path@ == path by {
        if listed.len() != limit {
            assert(is_listed(listed, path));
            let i = choose|i: int|
                0 <= i < listed.len() && (#[trigger] listed[i]).derivation_path@ == path;
            assert(read[i].derivation_path@ == path);
        }
    }
    assert forall|i: int, j: int| 0 <= i < j < read.len() implies (#[trigger] read[i]).created_at <= (
    #[trigger] read[j]).created_at && read[i].derivation_path@ != read[j].derivation_path@ by {
        assert(listed[i].created_at <= listed[j].created_at);
    }
}

/// The reading of the latest attempt at a build.
pub open spec fn reading_attempt(
    database_url: Seq<char>,
    derivation_path: String,
    rules: SharedBuildRules,
) -> spec_fn(Seq<Reply>) -> Step<Option<shared_builds::SharedBuildAttempt>, SharedBuildError> {
    |history: Seq<Reply>|
        shared_builds::read_attempt_step(database_url, derivation_path, rules, history)
}

/// An attempt as it is recorded.
pub open spec fn is_attempt(
    attempt: shared_builds::SharedBuildAttempt,
    row: SharedAttemptRow,
) -> bool {
    &&& attempt.attempt_id == row.attempt_id
    &&& attempt.derivation_path == row.derivation_path
    &&& attempt.ordinal == row.ordinal
    &&& attempt.backend_name == row.backend_name
    &&& attempt.backend_kind.spec_name()@ == row.backend_kind@
    &&& attempt.backend_execution_id == row.backend_execution_id
    &&& row.state@ == match attempt.state {
        shared_builds::SharedBuildAttemptState::Running => "running"@,
        shared_builds::SharedBuildAttemptState::Collecting => "collecting"@,
        shared_builds::SharedBuildAttemptState::Succeeded => "succeeded"@,
        shared_builds::SharedBuildAttemptState::Failed => "failed"@,
    }
    &&& attempt.created_at == row.created_at
    &&& attempt.started_at == row.started_at
    &&& attempt.collecting_at == row.collecting_at
    &&& attempt.completed_at == row.completed_at
}

/// The latest attempt at a build is read as it is recorded, and nothing where none was made.
pub proof fn latest_attempt_is_read(
    database_url: Seq<char>,
    derivation_path: String,
    rules: SharedBuildRules,
    tables: Seq<CourseRows>,
    history: Seq<Reply>,
)
    requires
        shared_builds::identity_valid(database_url, derivation_path@, rules),
        forall|id: i64| #[trigger]
            tables[0].attempts.contains_key(id) ==> shared_builds::attempt_of(
                tables[0].attempts[id],
            ) is Some,
        rows::ran(
            reading_attempt(database_url, derivation_path, rules),
            on_courses(),
            tables,
            history,
        ),
    ensures
        shared_builds::read_attempt_step(
            database_url,
            derivation_path,
            rules,
            history,
        ) matches Step::Finish(Ok(read)) && match read {
            Some(attempt) => is_latest(
                tables[0],
                derivation_path@,
                tables[0].attempts[attempt.attempt_id],
            ) && is_attempt(attempt, tables[0].attempts[attempt.attempt_id]),
            None => forall|id: i64| #[trigger]
                tables[0].attempts.contains_key(id) ==> tables[0].attempts[id].derivation_path@
                    != derivation_path@,
        },
        tables.last() == tables[0],
{
    let operation = reading_attempt(database_url, derivation_path, rules);
    next_is_done(operation, on_courses(), tables, history, 0);
    next_is_done(operation, on_courses(), tables, history, 1);
    end_is_reached(operation, on_courses(), tables, history, 2);
}

/// The reading of the outcome of an attempt.
pub open spec fn reading_outcome(database_url: Seq<char>, attempt_id: i64) -> spec_fn(
    Seq<Reply>,
) -> Step<Option<shared_builds::SharedBuildAttemptOutcome>, SharedBuildError> {
    |history: Seq<Reply>| shared_builds::read_outcome_step(database_url, attempt_id, history)
}

/// The outcome of an attempt is read as it is recorded, and nothing where there is none.
pub proof fn recorded_outcome_is_read(
    database_url: Seq<char>,
    attempt_id: i64,
    tables: Seq<CourseRows>,
    history: Seq<Reply>,
)
    requires
        !text::is_blank(database_url),
        attempt_id > 0,
        tables[0].outcomes.contains_key(attempt_id) ==> crypto::json_is_object(
            tables[0].outcomes[attempt_id].result_metadata@,
        ) == Some(true),
        rows::ran(reading_outcome(database_url, attempt_id), on_courses(), tables, history),
    ensures
        shared_builds::read_outcome_step(
            database_url,
            attempt_id,
            history,
        ) matches Step::Finish(Ok(read)) && if tables[0].outcomes.contains_key(attempt_id) {
            let row = tables[0].outcomes[attempt_id];
            &&& read matches Some(outcome)
            &&& outcome.attempt_id == row.attempt_id
            &&& outcome.classification == row.classification
            &&& outcome.result_metadata == row.result_metadata
            &&& outcome.created_at == row.created_at
        } else {
            read is None
        },
        tables.last() == tables[0],
{
    let operation = reading_outcome(database_url, attempt_id);
    next_is_done(operation, on_courses(), tables, history, 0);
    next_is_done(operation, on_courses(), tables, history, 1);
    end_is_reached(operation, on_courses(), tables, history, 2);
}

/// A build as it is recorded: nothing of a row is lost or changed when it is read, apart from lists
/// and texts, which hold the same.
pub proof fn build_is_read_as_recorded(row: SharedBuildRow, rules: SharedBuildRules)
    requires
        shared_builds::build_of(row, rules) is Some,
    ensures
        ({
            let build = shared_builds::build_of(row, rules)->0;
            &&& build.derivation_path@ == row.derivation_path@
            &&& build.backend_name@ == row.backend_name@
            &&& build.backend_kind.spec_name()@ == row.backend_kind@
            &&& build.capabilities.execution_recovery.spec_name()@ == row.execution_recovery@
            &&& build.capabilities.cancellation.spec_name()@ == row.cancellation@
            &&& build.capabilities.log_recovery.spec_name()@ == row.log_recovery@
            &&& shared_builds::same_options(build.backend_execution_id, row.backend_execution_id)
            &&& build.expected_outputs@ == row.expected_outputs@
            &&& build.build_request is Some <==> row.build_request is Some
            &&& build.build_request is Some ==> build.build_request->0.text@
                == row.build_request->0.text@
            &&& shared_builds::same_options(build.result_metadata, row.result_metadata)
            &&& shared_builds::same_options(
                build.failure_classification,
                row.failure_classification,
            )
            &&& row.state@ == match build.state {
                SharedBuildState::Claimed => "claimed"@,
                SharedBuildState::Running => "running"@,
                SharedBuildState::Collecting => "collecting"@,
                SharedBuildState::Succeeded => "succeeded"@,
                SharedBuildState::Failed => "failed"@,
            }
            &&& build.created_at == row.created_at
            &&& build.started_at == row.started_at
            &&& build.collecting_at == row.collecting_at
            &&& build.completed_at == row.completed_at
            &&& build.expires_at == row.expires_at
            &&& build.state is Failed <==> row.failure_classification is Some
            &&& build.state is Failed || build.state is Succeeded <==> row.result_metadata is Some
        }),
{
    assert(crate::persistence::database::list_of(row.expected_outputs@)@ == row.expected_outputs@);
}

} // verus!
