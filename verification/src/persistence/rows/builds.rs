//! Shared builds on their rows: a build that is claimed is joined by whoever claims the same, and
//! refused to others, and a build ends once.

use crate::backend::BackendCapabilities;
use crate::crypto;
use crate::persistence::database::{
    self, Digest, Reply, RequestedBuild, SharedBuildRow, Statement, Step,
};
use crate::persistence::rows::{self, end_is_reached, next_is_done};
use crate::persistence::shared_builds::{
    self, SharedBuild, SharedBuildClaim, SharedBuildError, SharedBuildFailure,
    SharedBuildOwnership, SharedBuildRules, SharedBuildState,
};
use crate::service::config::model::BackendKind;
use crate::text;
use crate::time::Span;
use vstd::prelude::*;

verus! {

/// A row has what a build is claimed with, and nothing has come of the build yet.
pub open spec fn is_claimed(row: SharedBuildRow, statement: Statement) -> bool {
    match statement {
        Statement::ClaimSharedBuild {
            derivation_path,
            request_digest,
            backend_name,
            backend_kind,
            execution_recovery,
            cancellation,
            log_recovery,
            backend_execution_id,
            expected_outputs,
            build_request,
        } => {
            &&& row.derivation_path@ == derivation_path@
            &&& row.request_digest@ == request_digest@
            &&& row.state@ == "claimed"@
            &&& row.backend_name@ == backend_name@
            &&& row.backend_kind@ == backend_kind@
            &&& row.execution_recovery@ == execution_recovery@
            &&& row.cancellation@ == cancellation@
            &&& row.log_recovery@ == log_recovery@
            &&& shared_builds::same_options(row.backend_execution_id, backend_execution_id)
            &&& crypto::texts_of(row.expected_outputs@) == crypto::texts_of(expected_outputs@)
            &&& match (row.build_request, build_request) {
                (Some(recorded), Some(claimed)) => recorded.text@ == claimed@,
                (None, None) => true,
                _ => false,
            }
            &&& row.result_metadata is None
            &&& row.failure_classification is None
            &&& row.started_at is None
            &&& row.collecting_at is None
            &&& row.completed_at is None
            &&& row.expires_at is None
        },
        _ => false,
    }
}

/// A row is another one with the end of the build recorded. Metadata is kept as JSON: what is
/// read has the value of what was written.
pub open spec fn is_completed(
    row: SharedBuildRow,
    before: SharedBuildRow,
    statement: Statement,
) -> bool {
    match statement {
        Statement::CompleteSharedBuild { state, result_metadata, failure_classification, .. } => {
            &&& is_same_build(row, before)
            &&& row.state@ == state@
            &&& row.result_metadata is Some
            &&& crypto::json_equal(row.result_metadata->0@, result_metadata@)
            &&& shared_builds::same_options(row.failure_classification, failure_classification)
            &&& row.created_at == before.created_at
            &&& row.started_at == before.started_at
            &&& row.collecting_at == before.collecting_at
            &&& row.completed_at is Some
            &&& row.expires_at is Some
        },
        _ => false,
    }
}

/// What statements do to the builds, which are under their derivations.
pub open spec fn builds_change(
    before: Map<Seq<char>, SharedBuildRow>,
    statement: Statement,
    reply: Reply,
    after: Map<Seq<char>, SharedBuildRow>,
) -> bool {
    match statement {
        Statement::Begin | Statement::Commit => reply is Done && after == before,
        Statement::ClaimSharedBuild { derivation_path, .. } => {
            let path = derivation_path@;
            if before.contains_key(path) && before[path].state@ != "failed"@ {
                reply == Reply::Found(false) && after == before
            } else {
                &&& reply == Reply::Found(true)
                &&& is_claimed(after[path], statement)
                &&& after == before.insert(path, after[path])
            }
        },
        Statement::ReadSharedBuild { derivation_path } => after == before
            && if before.contains_key(derivation_path@) {
            reply == Reply::SharedBuild(Some(before[derivation_path@]))
        } else {
            reply == Reply::SharedBuild(None)
        },
        Statement::LockSharedBuildState { derivation_path } => after == before && match reply {
            Reply::Text(None) => !before.contains_key(derivation_path@),
            Reply::Text(Some(Some(state))) => before.contains_key(derivation_path@) && state@
                == before[derivation_path@].state@,
            _ => false,
        },
        Statement::CompleteSharedBuild { derivation_path, .. } => if before.contains_key(
            derivation_path@,
        ) {
            match reply {
                Reply::SharedBuild(Some(row)) => {
                    &&& is_completed(row, before[derivation_path@], statement)
                    &&& after == before.insert(derivation_path@, row)
                },
                _ => false,
            }
        } else {
            reply == Reply::SharedBuild(None) && after == before
        },
        Statement::CompleteActiveAttempt { .. } => reply is AttemptId && after == before,
        Statement::InsertAttemptOutcome { .. } => reply is Changed && after == before,
        _ => true,
    }
}

/// The model of the builds.
pub open spec fn on_builds() -> spec_fn(
    Map<Seq<char>, SharedBuildRow>,
    Statement,
    Reply,
    Map<Seq<char>, SharedBuildRow>,
) -> bool {
    |
        before: Map<Seq<char>, SharedBuildRow>,
        statement: Statement,
        reply: Reply,
        after: Map<Seq<char>, SharedBuildRow>,
    |
        builds_change(before, statement, reply, after)
}

/// The claim of a build.
pub open spec fn claiming(
    database_url: Seq<char>,
    derivation_path: String,
    request_digest: Digest,
    backend_name: String,
    backend_kind: BackendKind,
    capabilities: BackendCapabilities,
    backend_execution_id: Option<String>,
    expected_outputs: Vec<String>,
    build_request: Option<RequestedBuild>,
    rules: SharedBuildRules,
) -> spec_fn(Seq<Reply>) -> Step<SharedBuildClaim, SharedBuildError> {
    |history: Seq<Reply>|
        shared_builds::claim_step(
            database_url,
            derivation_path,
            request_digest@,
            backend_name,
            backend_kind,
            capabilities,
            backend_execution_id,
            expected_outputs@,
            build_request,
            rules,
            history,
        )
}

/// A row has what another was claimed with, whatever became of the build since.
pub open spec fn is_same_build(row: SharedBuildRow, claimed: SharedBuildRow) -> bool {
    &&& row.derivation_path@ == claimed.derivation_path@
    &&& row.request_digest@ == claimed.request_digest@
    &&& row.backend_name@ == claimed.backend_name@
    &&& row.backend_kind@ == claimed.backend_kind@
    &&& row.execution_recovery@ == claimed.execution_recovery@
    &&& row.cancellation@ == claimed.cancellation@
    &&& row.log_recovery@ == claimed.log_recovery@
    &&& shared_builds::same_options(row.backend_execution_id, claimed.backend_execution_id)
    &&& crypto::texts_of(row.expected_outputs@) == crypto::texts_of(claimed.expected_outputs@)
    &&& match (row.build_request, claimed.build_request) {
        (Some(recorded), Some(requested)) => recorded.text@ == requested.text@,
        (None, None) => true,
        _ => false,
    }
}

/// What a build of a row has that another row has too.
proof fn same_builds_agree(
    row: SharedBuildRow,
    claimed: SharedBuildRow,
    backend_name: Seq<char>,
    backend_kind: BackendKind,
    capabilities: BackendCapabilities,
    backend_execution_id: Option<String>,
    expected_outputs: Seq<String>,
    build_request: Option<RequestedBuild>,
    rules: SharedBuildRules,
)
    requires
        is_same_build(row, claimed),
        shared_builds::build_of(row, rules) is Some,
        shared_builds::build_of(claimed, rules) is Some,
    ensures
        ({
            let build = shared_builds::build_of(row, rules)->0;
            let first = shared_builds::build_of(claimed, rules)->0;
            &&& build.derivation_path@ == first.derivation_path@
            &&& build.request_digest == first.request_digest
            &&& build.backend_name@ == first.backend_name@
            &&& crypto::texts_of(build.expected_outputs@) == crypto::texts_of(
                first.expected_outputs@,
            )
            &&& shared_builds::same_claim(
                first,
                backend_name,
                backend_kind,
                capabilities,
                backend_execution_id,
                expected_outputs,
                build_request,
            ) ==> shared_builds::same_claim(
                build,
                backend_name,
                backend_kind,
                capabilities,
                backend_execution_id,
                expected_outputs,
                build_request,
            )
        }),
{
    assert(database::list_of(row.expected_outputs@)@ == row.expected_outputs@);
    assert(database::list_of(claimed.expected_outputs@)@ == claimed.expected_outputs@);
}

/// What a claim that ends well leaves: the build is there as it was returned, and agrees with
/// the claim.
proof fn claimed(
    database_url: Seq<char>,
    derivation_path: String,
    request_digest: Digest,
    backend_name: String,
    backend_kind: BackendKind,
    capabilities: BackendCapabilities,
    backend_execution_id: Option<String>,
    expected_outputs: Vec<String>,
    build_request: Option<RequestedBuild>,
    rules: SharedBuildRules,
    tables: Seq<Map<Seq<char>, SharedBuildRow>>,
    history: Seq<Reply>,
    claim: SharedBuildClaim,
)
    requires
        rows::ran(
            claiming(
                database_url,
                derivation_path,
                request_digest,
                backend_name,
                backend_kind,
                capabilities,
                backend_execution_id,
                expected_outputs,
                build_request,
                rules,
            ),
            on_builds(),
            tables,
            history,
        ),
        shared_builds::claim_step(
            database_url,
            derivation_path,
            request_digest@,
            backend_name,
            backend_kind,
            capabilities,
            backend_execution_id,
            expected_outputs@,
            build_request,
            rules,
            history,
        ) == Step::<SharedBuildClaim, SharedBuildError>::Finish(Ok(claim)),
    ensures
        tables.last().contains_key(derivation_path@),
        shared_builds::build_of(tables.last()[derivation_path@], rules) == Some(claim.build),
        tables.last()[derivation_path@].state@ != "failed"@,
        !text::is_blank(database_url),
        claim.build.request_digest@ == request_digest@,
        shared_builds::same_claim(
            claim.build,
            backend_name@,
            backend_kind,
            capabilities,
            backend_execution_id,
            expected_outputs@,
            build_request,
        ),
{
    let operation = claiming(
        database_url,
        derivation_path,
        request_digest,
        backend_name,
        backend_kind,
        capabilities,
        backend_execution_id,
        expected_outputs,
        build_request,
        rules,
    );
    next_is_done(operation, on_builds(), tables, history, 0);
    next_is_done(operation, on_builds(), tables, history, 1);
    next_is_done(operation, on_builds(), tables, history, 2);
    next_is_done(operation, on_builds(), tables, history, 3);
    end_is_reached(operation, on_builds(), tables, history, 4);
    let row = tables.last()[derivation_path@];
    reveal_strlit("claimed");
    reveal_strlit("failed");
    assert("claimed"@[0] == 'c');
    assert("failed"@[0] == 'f');
    reveal_strlit("local");
    reveal_strlit("static-ssh");
    reveal_strlit("nomad");
    assert("local"@[0] == 'l');
    assert("static-ssh"@[0] == 's');
    assert("nomad"@[0] == 'n');
    assert(database::list_of(row.expected_outputs@)@ == row.expected_outputs@);
    assert(database::list_of(expected_outputs@)@ == expected_outputs@);
}

/// Whoever claims a build as it was claimed joins it, unless it failed since: the derivation, the
/// digest, the backend and the outputs are those of the first claim, and nothing changes.
pub proof fn claiming_again_joins_the_build(
    database_url: Seq<char>,
    derivation_path: String,
    request_digest: Digest,
    backend_name: String,
    backend_kind: BackendKind,
    capabilities: BackendCapabilities,
    backend_execution_id: Option<String>,
    expected_outputs: Vec<String>,
    build_request: Option<RequestedBuild>,
    rules: SharedBuildRules,
    tables: Seq<Map<Seq<char>, SharedBuildRow>>,
    history: Seq<Reply>,
    first: SharedBuildClaim,
    later_tables: Seq<Map<Seq<char>, SharedBuildRow>>,
    later_history: Seq<Reply>,
)
    requires
        rows::ran(
            claiming(
                database_url,
                derivation_path,
                request_digest,
                backend_name,
                backend_kind,
                capabilities,
                backend_execution_id,
                expected_outputs,
                build_request,
                rules,
            ),
            on_builds(),
            tables,
            history,
        ),
        shared_builds::claim_step(
            database_url,
            derivation_path,
            request_digest@,
            backend_name,
            backend_kind,
            capabilities,
            backend_execution_id,
            expected_outputs@,
            build_request,
            rules,
            history,
        ) == Step::<SharedBuildClaim, SharedBuildError>::Finish(Ok(first)),
        later_tables[0].contains_key(derivation_path@),
        is_same_build(later_tables[0][derivation_path@], tables.last()[derivation_path@]),
        later_tables[0][derivation_path@].state@ != "failed"@,
        shared_builds::build_of(later_tables[0][derivation_path@], rules) is Some,
        rows::ran(
            claiming(
                database_url,
                derivation_path,
                request_digest,
                backend_name,
                backend_kind,
                capabilities,
                backend_execution_id,
                expected_outputs,
                build_request,
                rules,
            ),
            on_builds(),
            later_tables,
            later_history,
        ),
    ensures
        shared_builds::claim_step(
            database_url,
            derivation_path,
            request_digest@,
            backend_name,
            backend_kind,
            capabilities,
            backend_execution_id,
            expected_outputs@,
            build_request,
            rules,
            later_history,
        ) matches Step::Finish(Ok(second)) && {
            &&& second.ownership == SharedBuildOwnership::Joined
            &&& second.build.derivation_path@ == first.build.derivation_path@
            &&& second.build.request_digest == first.build.request_digest
            &&& second.build.backend_name@ == first.build.backend_name@
            &&& crypto::texts_of(second.build.expected_outputs@) == crypto::texts_of(
                first.build.expected_outputs@,
            )
        },
        later_tables.last() == later_tables[0],
{
    let operation = claiming(
        database_url,
        derivation_path,
        request_digest,
        backend_name,
        backend_kind,
        capabilities,
        backend_execution_id,
        expected_outputs,
        build_request,
        rules,
    );
    claimed(
        database_url,
        derivation_path,
        request_digest,
        backend_name,
        backend_kind,
        capabilities,
        backend_execution_id,
        expected_outputs,
        build_request,
        rules,
        tables,
        history,
        first,
    );
    same_builds_agree(
        later_tables[0][derivation_path@],
        tables.last()[derivation_path@],
        backend_name@,
        backend_kind,
        capabilities,
        backend_execution_id,
        expected_outputs@,
        build_request,
        rules,
    );
    next_is_done(operation, on_builds(), later_tables, later_history, 0);
    next_is_done(operation, on_builds(), later_tables, later_history, 1);
    next_is_done(operation, on_builds(), later_tables, later_history, 2);
    next_is_done(operation, on_builds(), later_tables, later_history, 3);
    end_is_reached(operation, on_builds(), later_tables, later_history, 4);
}

/// Whoever claims a build with another digest is refused with a conflict, unless the build failed
/// since it was claimed, and nothing changes.
pub proof fn claiming_with_another_digest_is_a_conflict(
    database_url: Seq<char>,
    derivation_path: String,
    request_digest: Digest,
    backend_name: String,
    backend_kind: BackendKind,
    capabilities: BackendCapabilities,
    backend_execution_id: Option<String>,
    expected_outputs: Vec<String>,
    build_request: Option<RequestedBuild>,
    rules: SharedBuildRules,
    tables: Seq<Map<Seq<char>, SharedBuildRow>>,
    history: Seq<Reply>,
    first: SharedBuildClaim,
    other_database_url: Seq<char>,
    other_request_digest: Digest,
    other_backend_name: String,
    other_backend_kind: BackendKind,
    other_capabilities: BackendCapabilities,
    other_backend_execution_id: Option<String>,
    other_expected_outputs: Vec<String>,
    other_build_request: Option<RequestedBuild>,
    later_tables: Seq<Map<Seq<char>, SharedBuildRow>>,
    later_history: Seq<Reply>,
)
    requires
        rows::ran(
            claiming(
                database_url,
                derivation_path,
                request_digest,
                backend_name,
                backend_kind,
                capabilities,
                backend_execution_id,
                expected_outputs,
                build_request,
                rules,
            ),
            on_builds(),
            tables,
            history,
        ),
        shared_builds::claim_step(
            database_url,
            derivation_path,
            request_digest@,
            backend_name,
            backend_kind,
            capabilities,
            backend_execution_id,
            expected_outputs@,
            build_request,
            rules,
            history,
        ) == Step::<SharedBuildClaim, SharedBuildError>::Finish(Ok(first)),
        later_tables[0].contains_key(derivation_path@),
        is_same_build(later_tables[0][derivation_path@], tables.last()[derivation_path@]),
        later_tables[0][derivation_path@].state@ != "failed"@,
        shared_builds::build_of(later_tables[0][derivation_path@], rules) is Some,
        !text::is_blank(other_database_url),
        shared_builds::is_claim(
            derivation_path@,
            other_request_digest@.len(),
            other_backend_name@,
            other_backend_kind,
            other_capabilities,
            other_backend_execution_id,
            other_expected_outputs@,
            rules,
        ),
        other_request_digest != request_digest,
        rows::ran(
            claiming(
                other_database_url,
                derivation_path,
                other_request_digest,
                other_backend_name,
                other_backend_kind,
                other_capabilities,
                other_backend_execution_id,
                other_expected_outputs,
                other_build_request,
                rules,
            ),
            on_builds(),
            later_tables,
            later_history,
        ),
    ensures
        shared_builds::claim_step(
            other_database_url,
            derivation_path,
            other_request_digest@,
            other_backend_name,
            other_backend_kind,
            other_capabilities,
            other_backend_execution_id,
            other_expected_outputs@,
            other_build_request,
            rules,
            later_history,
        ) == shared_builds::failed::<SharedBuildClaim>(SharedBuildFailure::Conflict),
        later_tables.last() == later_tables[0],
{
    let operation = claiming(
        other_database_url,
        derivation_path,
        other_request_digest,
        other_backend_name,
        other_backend_kind,
        other_capabilities,
        other_backend_execution_id,
        other_expected_outputs,
        other_build_request,
        rules,
    );
    claimed(
        database_url,
        derivation_path,
        request_digest,
        backend_name,
        backend_kind,
        capabilities,
        backend_execution_id,
        expected_outputs,
        build_request,
        rules,
        tables,
        history,
        first,
    );
    same_builds_agree(
        later_tables[0][derivation_path@],
        tables.last()[derivation_path@],
        backend_name@,
        backend_kind,
        capabilities,
        backend_execution_id,
        expected_outputs@,
        build_request,
        rules,
    );
    if other_request_digest@ == request_digest@ {
        database::same_digests(other_request_digest, request_digest);
    }
    next_is_done(operation, on_builds(), later_tables, later_history, 0);
    next_is_done(operation, on_builds(), later_tables, later_history, 1);
    next_is_done(operation, on_builds(), later_tables, later_history, 2);
    end_is_reached(operation, on_builds(), later_tables, later_history, 3);
}

/// The end of a build.
pub open spec fn completing(
    database_url: Seq<char>,
    derivation_path: String,
    state: SharedBuildState,
    failure_classification: Option<String>,
    classification: String,
    result_metadata: String,
    retention: Span,
    rules: SharedBuildRules,
) -> spec_fn(Seq<Reply>) -> Step<SharedBuild, SharedBuildError> {
    |history: Seq<Reply>|
        shared_builds::complete_step(
            database_url,
            derivation_path,
            state,
            failure_classification,
            classification,
            result_metadata,
            retention,
            rules,
            history,
        )
}

/// A build that ended is recorded so, and is what was returned.
pub proof fn completed_build_has_ended(
    database_url: Seq<char>,
    derivation_path: String,
    state: SharedBuildState,
    failure_classification: Option<String>,
    classification: String,
    result_metadata: String,
    retention: Span,
    rules: SharedBuildRules,
    tables: Seq<Map<Seq<char>, SharedBuildRow>>,
    history: Seq<Reply>,
    build: SharedBuild,
)
    requires
        rows::ran(
            completing(
                database_url,
                derivation_path,
                state,
                failure_classification,
                classification,
                result_metadata,
                retention,
                rules,
            ),
            on_builds(),
            tables,
            history,
        ),
        shared_builds::complete_step(
            database_url,
            derivation_path,
            state,
            failure_classification,
            classification,
            result_metadata,
            retention,
            rules,
            history,
        ) == Step::<SharedBuild, SharedBuildError>::Finish(Ok(build)),
    ensures
        tables.last().contains_key(derivation_path@),
        tables.last()[derivation_path@].state@ == shared_builds::ending_name(state)@,
        shared_builds::build_of(tables.last()[derivation_path@], rules) == Some(build),
        build.state == state,
{
    let operation = completing(
        database_url,
        derivation_path,
        state,
        failure_classification,
        classification,
        result_metadata,
        retention,
        rules,
    );
    next_is_done(operation, on_builds(), tables, history, 0);
    next_is_done(operation, on_builds(), tables, history, 1);
    next_is_done(operation, on_builds(), tables, history, 2);
    next_is_done(operation, on_builds(), tables, history, 3);
    states_differ();
    if history[1]->Text_0->0->0@ == "claimed"@ {
        end_is_reached(operation, on_builds(), tables, history, 4);
    } else {
        next_is_done(operation, on_builds(), tables, history, 4);
        next_is_done(operation, on_builds(), tables, history, 5);
        end_is_reached(operation, on_builds(), tables, history, 6);
    }
}

proof fn states_differ()
    ensures
        "claimed"@.len() == 7 && "claimed"@[0] == 'c',
        "running"@.len() == 7 && "running"@[0] == 'r',
        "collecting"@.len() == 10,
        "succeeded"@.len() == 9,
        "failed"@.len() == 6,
{
    reveal_strlit("claimed");
    reveal_strlit("running");
    reveal_strlit("collecting");
    reveal_strlit("succeeded");
    reveal_strlit("failed");
}

/// A build that ended is refused when it is to be ended again, in whatever way, and stays as it
/// is.
pub proof fn completed_build_is_not_completed_again(
    database_url: Seq<char>,
    derivation_path: String,
    state: SharedBuildState,
    failure_classification: Option<String>,
    classification: String,
    result_metadata: String,
    retention: Span,
    rules: SharedBuildRules,
    tables: Seq<Map<Seq<char>, SharedBuildRow>>,
    history: Seq<Reply>,
    build: SharedBuild,
    other_database_url: Seq<char>,
    other_state: SharedBuildState,
    other_failure_classification: Option<String>,
    other_classification: String,
    other_result_metadata: String,
    other_retention: Span,
    later_tables: Seq<Map<Seq<char>, SharedBuildRow>>,
    later_history: Seq<Reply>,
)
    requires
        rows::ran(
            completing(
                database_url,
                derivation_path,
                state,
                failure_classification,
                classification,
                result_metadata,
                retention,
                rules,
            ),
            on_builds(),
            tables,
            history,
        ),
        shared_builds::complete_step(
            database_url,
            derivation_path,
            state,
            failure_classification,
            classification,
            result_metadata,
            retention,
            rules,
            history,
        ) == Step::<SharedBuild, SharedBuildError>::Finish(Ok(build)),
        shared_builds::identity_valid(other_database_url, derivation_path@, rules),
        shared_builds::completion_valid(
            other_state,
            other_failure_classification,
            other_result_metadata@,
            other_retention,
        ),
        rows::ran(
            completing(
                other_database_url,
                derivation_path,
                other_state,
                other_failure_classification,
                other_classification,
                other_result_metadata,
                other_retention,
                rules,
            ),
            on_builds(),
            later_tables,
            later_history,
        ),
        later_tables[0] == tables.last(),
    ensures
        shared_builds::complete_step(
            other_database_url,
            derivation_path,
            other_state,
            other_failure_classification,
            other_classification,
            other_result_metadata,
            other_retention,
            rules,
            later_history,
        ) == shared_builds::failed::<SharedBuild>(SharedBuildFailure::InvalidState),
        later_tables.last() == tables.last(),
{
    completed_build_has_ended(
        database_url,
        derivation_path,
        state,
        failure_classification,
        classification,
        result_metadata,
        retention,
        rules,
        tables,
        history,
        build,
    );
    states_differ();
    let operation = completing(
        other_database_url,
        derivation_path,
        other_state,
        other_failure_classification,
        other_classification,
        other_result_metadata,
        other_retention,
        rules,
    );
    next_is_done(operation, on_builds(), later_tables, later_history, 0);
    next_is_done(operation, on_builds(), later_tables, later_history, 1);
    end_is_reached(operation, on_builds(), later_tables, later_history, 2);
}

/// A build that is not there, or that failed, is claimed by whoever asks for it: it is recorded and
/// returned as it was asked for, and nothing of an earlier end is left.
pub proof fn free_build_is_claimed(
    database_url: Seq<char>,
    derivation_path: String,
    request_digest: Digest,
    backend_name: String,
    backend_kind: BackendKind,
    capabilities: BackendCapabilities,
    backend_execution_id: Option<String>,
    expected_outputs: Vec<String>,
    build_request: Option<RequestedBuild>,
    rules: SharedBuildRules,
    tables: Seq<Map<Seq<char>, SharedBuildRow>>,
    history: Seq<Reply>,
)
    requires
        !text::is_blank(database_url),
        shared_builds::is_claim(
            derivation_path@,
            32,
            backend_name@,
            backend_kind,
            capabilities,
            backend_execution_id,
            expected_outputs@,
            rules,
        ),
        tables[0].contains_key(derivation_path@) ==> tables[0][derivation_path@].state@
            == "failed"@,
        shared_builds::build_of(tables.last()[derivation_path@], rules) is Some,
        rows::ran(
            claiming(
                database_url,
                derivation_path,
                request_digest,
                backend_name,
                backend_kind,
                capabilities,
                backend_execution_id,
                expected_outputs,
                build_request,
                rules,
            ),
            on_builds(),
            tables,
            history,
        ),
    ensures
        shared_builds::claim_step(
            database_url,
            derivation_path,
            request_digest@,
            backend_name,
            backend_kind,
            capabilities,
            backend_execution_id,
            expected_outputs@,
            build_request,
            rules,
            history,
        ) matches Step::Finish(Ok(claim)) && {
            let row = tables.last()[derivation_path@];
            let build = claim.build;
            &&& claim.ownership is Claimed
            &&& shared_builds::build_of(row, rules) == Some(build)
            &&& build.state is Claimed
            &&& build.derivation_path@ == derivation_path@
            &&& build.request_digest@ == request_digest@
            &&& build.backend_name@ == backend_name@
            &&& build.backend_kind == backend_kind
            &&& build.capabilities == capabilities
            &&& shared_builds::same_options(build.backend_execution_id, backend_execution_id)
            &&& crypto::texts_of(build.expected_outputs@) == crypto::texts_of(expected_outputs@)
            &&& build.build_request is Some <==> build_request is Some
            &&& build_request is Some ==> build.build_request->0.text@ == build_request->0.text@
            &&& build.result_metadata is None
            &&& build.failure_classification is None
            &&& build.started_at is None
            &&& build.collecting_at is None
            &&& build.completed_at is None
            &&& build.expires_at is None
            &&& tables.last() == tables[0].insert(derivation_path@, row)
        },
{
    let operation = claiming(
        database_url,
        derivation_path,
        request_digest,
        backend_name,
        backend_kind,
        capabilities,
        backend_execution_id,
        expected_outputs,
        build_request,
        rules,
    );
    next_is_done(operation, on_builds(), tables, history, 0);
    next_is_done(operation, on_builds(), tables, history, 1);
    next_is_done(operation, on_builds(), tables, history, 2);
    let row = tables[2][derivation_path@];
    assert(database::digest_of(request_digest@)@ == request_digest@);
    assert(database::digest_of(row.request_digest@)@ == request_digest@);
    assert(database::list_of(row.expected_outputs@)@ == row.expected_outputs@);
    assert(database::list_of(expected_outputs@)@ == expected_outputs@);
    states_differ();
    if operation(history.take(3)) is Perform {
        next_is_done(operation, on_builds(), tables, history, 3);
        end_is_reached(operation, on_builds(), tables, history, 4);
    } else {
        end_is_reached(operation, on_builds(), tables, history, 3);
    }
    reveal_strlit("local");
    reveal_strlit("static-ssh");
    reveal_strlit("nomad");
    assert("local"@[0] == 'l');
    assert("static-ssh"@[0] == 's');
    assert("nomad"@[0] == 'n');
}

} // verus!
