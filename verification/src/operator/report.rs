//! What operators are shown.

use crate::fault::{Fault, FaultKind};
use crate::persistence::database::{copy_list, copy_option, Moment};
use crate::persistence::shared_builds::{
    SharedBuild, SharedBuildAttempt, SharedBuildAttemptState, SharedBuildError,
    SharedBuildOperationalCounts, SharedBuildQueueEntry, SharedBuildState,
};
use crate::service::config::model::BackendTarget;
use crate::service::config::ServiceConfig;
use crate::text;
use vstd::prelude::*;

verus! {

/// A backend that is configured.
#[derive(Clone, Debug)]
pub struct ConfiguredBackend {
    pub name: String,
    pub kind: &'static str,
    pub system: String,
    pub features: Vec<String>,
    pub capacity: usize,
}

impl ConfiguredBackend {
    /// The backend is shown as its target and its capacity say.
    pub open spec fn shows(self, target: BackendTarget, capacity: usize) -> bool {
        &&& self.name == target.name
        &&& self.kind == target.kind.spec_name()
        &&& self.system == target.system
        &&& self.features@ == target.features@
        &&& self.capacity == capacity
    }
}

/// The targets of the configured backends with their capacities: the local one, those reached over
/// SSH, and those of Nomad.
pub open spec fn capacities(config: ServiceConfig) -> Seq<(BackendTarget, usize)> {
    (match config.local_backend {
        Some(backend) => seq![(backend.target, backend.maximum_concurrent_builds)],
        None => Seq::empty(),
    }) + config.static_ssh_backends@.map_values(
        |backend: crate::service::config::model::StaticSshBackendConfig|
            (backend.target, backend.maximum_concurrent_builds),
    ) + config.nomad_backends@.map_values(
        |backend: crate::service::config::model::NomadBackendConfig|
            (backend.target, backend.maximum_concurrent_builds),
    )
}

/// Backends are shown in order.
pub open spec fn show_all(
    backends: Seq<ConfiguredBackend>,
    targets: Seq<(BackendTarget, usize)>,
) -> bool {
    &&& backends.len() == targets.len()
    &&& forall|i: int|
        0 <= i < backends.len() ==> (#[trigger] backends[i]).shows(targets[i].0, targets[i].1)
}

fn configured_backend(target: &BackendTarget, capacity: usize) -> (backend: ConfiguredBackend)
    ensures
        backend.shows(*target, capacity),
{
    ConfiguredBackend {
        name: target.name.clone(),
        kind: target.kind.as_str(),
        system: target.system.clone(),
        features: copy_list(&target.features),
        capacity,
    }
}

/// The backends that are configured.
pub fn configured_backends(config: &ServiceConfig) -> (backends: Vec<ConfiguredBackend>)
    ensures
        show_all(backends@, capacities(*config)),
{
    let ghost expected = capacities(*config);
    let ghost first: int = if config.local_backend is Some {
        1
    } else {
        0
    };
    let mut backends: Vec<ConfiguredBackend> = Vec::new();
    if let Some(backend) = &config.local_backend {
        backends.push(configured_backend(&backend.target, backend.maximum_concurrent_builds));
        assert(expected[0] == (backend.target, backend.maximum_concurrent_builds));
    }
    let mut i: usize = 0;
    while i < config.static_ssh_backends.len()
        invariant
            expected == capacities(*config),
            first == if config.local_backend is Some {
                1int
            } else {
                0int
            },
            i <= config.static_ssh_backends@.len(),
            backends@.len() == first + i,
            forall|j: int|
                0 <= j < backends@.len() ==> (#[trigger] backends@[j]).shows(
                    expected[j].0,
                    expected[j].1,
                ),
        decreases config.static_ssh_backends@.len() - i,
    {
        let backend = &config.static_ssh_backends[i];
        assert(expected[first + i] == (backend.target, backend.maximum_concurrent_builds));
        backends.push(configured_backend(&backend.target, backend.maximum_concurrent_builds));
        i += 1;
    }
    let ghost second: int = first + config.static_ssh_backends@.len();
    let mut k: usize = 0;
    while k < config.nomad_backends.len()
        invariant
            expected == capacities(*config),
            first == if config.local_backend is Some {
                1int
            } else {
                0int
            },
            second == first + config.static_ssh_backends@.len(),
            k <= config.nomad_backends@.len(),
            backends@.len() == second + k,
            forall|j: int|
                0 <= j < backends@.len() ==> (#[trigger] backends@[j]).shows(
                    expected[j].0,
                    expected[j].1,
                ),
        decreases config.nomad_backends@.len() - k,
    {
        let backend = &config.nomad_backends[k];
        assert(expected[second + k] == (backend.target, backend.maximum_concurrent_builds));
        backends.push(configured_backend(&backend.target, backend.maximum_concurrent_builds));
        k += 1;
    }
    backends
}

/// That the configuration is valid, and which backends it has.
#[derive(Clone, Debug)]
pub struct ConfigReport {
    pub valid: bool,
    pub backend_count: usize,
    pub backends: Vec<ConfiguredBackend>,
}

impl ConfigReport {
    pub fn from_config(config: &ServiceConfig) -> (report: Self)
        ensures
            report.valid,
            report.backend_count == capacities(*config).len(),
            show_all(report.backends@, capacities(*config)),
    {
        let backends = configured_backends(config);
        ConfigReport { valid: true, backend_count: backends.len(), backends }
    }
}

/// How many builds are in which state, and how many of them were read as active.
#[derive(Clone, Copy, Debug, PartialEq, Eq, Structural)]
pub struct StatusReport {
    pub queued: u64,
    pub running: u64,
    pub collecting: u64,
    pub active: usize,
}

impl StatusReport {
    /// The report of the counts and of the active builds, as both were read.
    pub fn read(
        counts: Result<SharedBuildOperationalCounts, SharedBuildError>,
        active: &Result<Vec<SharedBuild>, SharedBuildError>,
    ) -> (report: Result<Self, SharedBuildError>)
        ensures
            report == match (counts, *active) {
                (Err(error), _) => Err::<StatusReport, SharedBuildError>(error),
                (Ok(_), Err(error)) => Err::<StatusReport, SharedBuildError>(error),
                (Ok(counts), Ok(builds)) => Ok::<StatusReport, SharedBuildError>(
                    StatusReport {
                        queued: counts.queued,
                        running: counts.running,
                        collecting: counts.collecting,
                        active: builds@.len() as usize,
                    },
                ),
            },
    {
        match (counts, active) {
            (Err(error), _) => Err(error),
            (Ok(_), Err(error)) => Err(*error),
            (Ok(counts), Ok(builds)) => Ok(
                StatusReport {
                    queued: counts.queued,
                    running: counts.running,
                    collecting: counts.collecting,
                    active: builds.len(),
                },
            ),
        }
    }
}

/// Whole seconds since the Unix epoch, or none before it.
pub open spec fn seconds_of(moment: Moment) -> u64 {
    if moment < 0 {
        0
    } else {
        (moment / 1_000_000) as u64
    }
}

pub fn unix_seconds(moment: Moment) -> (seconds: u64)
    ensures
        seconds == seconds_of(moment),
{
    if moment < 0 {
        0
    } else {
        (moment as u64) / 1_000_000
    }
}

/// A build that waits.
#[derive(Clone, Debug)]
pub struct QueuedBuild {
    pub derivation_path: String,
    pub quota_subject: String,
    pub queue_position: i64,
    pub queued_at_unix_seconds: u64,
}

/// An entry of the queue as it is shown.
pub open spec fn shown_entry(entry: SharedBuildQueueEntry) -> QueuedBuild {
    QueuedBuild {
        derivation_path: entry.derivation_path,
        quota_subject: entry.quota_subject,
        queue_position: entry.queue_position,
        queued_at_unix_seconds: seconds_of(entry.queued_at),
    }
}

impl QueuedBuild {
    pub fn from_entry(entry: &SharedBuildQueueEntry) -> (build: Self)
        ensures
            build == shown_entry(*entry),
    {
        QueuedBuild {
            derivation_path: entry.derivation_path.clone(),
            quota_subject: entry.quota_subject.clone(),
            queue_position: entry.queue_position,
            queued_at_unix_seconds: unix_seconds(entry.queued_at),
        }
    }
}

/// The builds that wait, in their order.
#[derive(Clone, Debug)]
pub struct QueueReport {
    pub builds: Vec<QueuedBuild>,
}

impl QueueReport {
    pub fn from_entries(entries: &Vec<SharedBuildQueueEntry>) -> (report: Self)
        ensures
            report.builds@ == entries@.map_values(
                |entry: SharedBuildQueueEntry| shown_entry(entry),
            ),
    {
        let mut builds: Vec<QueuedBuild> = Vec::new();
        let mut i: usize = 0;
        while i < entries.len()
            invariant
                i <= entries@.len(),
                builds@.len() == i,
                forall|j: int| 0 <= j < i ==> #[trigger] builds@[j] == shown_entry(entries@[j]),
            decreases entries@.len() - i,
        {
            builds.push(QueuedBuild::from_entry(&entries[i]));
            i += 1;
        }
        assert(builds@ =~= entries@.map_values(|entry: SharedBuildQueueEntry| shown_entry(entry)));
        QueueReport { builds }
    }
}

/// The name of a state.
pub open spec fn named_state(state: SharedBuildState) -> &'static str {
    match state {
        SharedBuildState::Claimed => "claimed",
        SharedBuildState::Running => "running",
        SharedBuildState::Collecting => "collecting",
        SharedBuildState::Succeeded => "succeeded",
        SharedBuildState::Failed => "failed",
    }
}

pub fn state_name(state: SharedBuildState) -> (name: &'static str)
    ensures
        name == named_state(state),
{
    match state {
        SharedBuildState::Claimed => "claimed",
        SharedBuildState::Running => "running",
        SharedBuildState::Collecting => "collecting",
        SharedBuildState::Succeeded => "succeeded",
        SharedBuildState::Failed => "failed",
    }
}

/// An attempt as it is shown.
#[derive(Clone, Copy, Debug)]
pub struct AttemptReport {
    pub ordinal: i32,
    pub state: &'static str,
}

pub open spec fn shown_attempt(attempt: SharedBuildAttempt) -> AttemptReport {
    AttemptReport {
        ordinal: attempt.ordinal,
        state: match attempt.state {
            SharedBuildAttemptState::Running => "running",
            SharedBuildAttemptState::Collecting => "collecting",
            SharedBuildAttemptState::Succeeded => "succeeded",
            SharedBuildAttemptState::Failed => "failed",
        },
    }
}

impl AttemptReport {
    pub fn from_attempt(attempt: &SharedBuildAttempt) -> (report: Self)
        ensures
            report == shown_attempt(*attempt),
    {
        AttemptReport {
            ordinal: attempt.ordinal,
            state: match attempt.state {
                SharedBuildAttemptState::Running => "running",
                SharedBuildAttemptState::Collecting => "collecting",
                SharedBuildAttemptState::Succeeded => "succeeded",
                SharedBuildAttemptState::Failed => "failed",
            },
        }
    }
}

/// A build with the latest attempt at it.
#[derive(Clone, Debug)]
pub struct BuildReport {
    pub derivation_path: String,
    pub state: &'static str,
    pub backend_name: String,
    pub backend_kind: &'static str,
    pub recovery: &'static str,
    pub backend_execution_id: Option<String>,
    pub expected_outputs: Vec<String>,
    pub failure_classification: Option<String>,
    pub attempt: Option<AttemptReport>,
}

impl BuildReport {
    /// The report shows a build and the latest attempt at it.
    pub open spec fn shows(self, build: SharedBuild, attempt: Option<SharedBuildAttempt>) -> bool {
        &&& self.derivation_path == build.derivation_path
        &&& self.state == named_state(build.state)
        &&& self.backend_name == build.backend_name
        &&& self.backend_kind == build.backend_kind.spec_name()
        &&& self.recovery == build.capabilities.execution_recovery.spec_name()
        &&& self.backend_execution_id == build.backend_execution_id
        &&& self.expected_outputs@ == build.expected_outputs@
        &&& self.failure_classification == build.failure_classification
        &&& self.attempt == match attempt {
            Some(attempt) => Some(shown_attempt(attempt)),
            None => None,
        }
    }

    /// The report of a build, which has to be there.
    pub fn read(build: &Option<SharedBuild>, attempt: &Option<SharedBuildAttempt>) -> (report: Result<
        Self,
        Fault,
    >)
        ensures
            match *build {
                Some(build) => report matches Ok(shown) && shown.shows(build, *attempt),
                None => report == Err::<BuildReport, Fault>(
                    Fault { kind: FaultKind::NotFound, message: "shared build not found" },
                ),
            },
    {
        let build = match build {
            Some(build) => build,
            None => {
                return Err(Fault { kind: FaultKind::NotFound, message: "shared build not found" });
            },
        };
        Ok(
            BuildReport {
                derivation_path: build.derivation_path.clone(),
                state: state_name(build.state),
                backend_name: build.backend_name.clone(),
                backend_kind: build.backend_kind.as_str(),
                recovery: build.capabilities.execution_recovery.as_str(),
                backend_execution_id: copy_option(&build.backend_execution_id),
                expected_outputs: copy_list(&build.expected_outputs),
                failure_classification: copy_option(&build.failure_classification),
                attempt: match attempt {
                    Some(attempt) => Some(AttemptReport::from_attempt(attempt)),
                    None => None,
                },
            },
        )
    }
}

/// A backend with the number of active builds that it has.
#[derive(Clone, Debug)]
pub struct BackendState {
    pub backend: ConfiguredBackend,
    pub active_builds: usize,
}

/// How many builds are on a backend.
pub open spec fn builds_on(builds: Seq<SharedBuild>, name: Seq<char>) -> nat
    decreases builds.len(),
{
    if builds.len() == 0 {
        0
    } else {
        builds_on(builds.drop_last(), name) + if builds.last().backend_name@ == name {
            1nat
        } else {
            0nat
        }
    }
}

fn count_builds(builds: &Vec<SharedBuild>, name: &str) -> (count: usize)
    ensures
        count == builds_on(builds@, name@),
{
    let mut count: usize = 0;
    let mut i: usize = 0;
    assert(builds@.take(0) =~= Seq::<SharedBuild>::empty());
    while i < builds.len()
        invariant
            i <= builds@.len(),
            count <= i,
            count == builds_on(builds@.take(i as int), name@),
        decreases builds@.len() - i,
    {
        assert(builds@.take(i + 1).drop_last() =~= builds@.take(i as int));
        assert(builds@.take(i + 1).last() == builds@[i as int]);
        if text::same_text(builds[i].backend_name.as_str(), name) {
            count += 1;
        }
        i += 1;
    }
    assert(builds@.take(builds@.len() as int) =~= builds@);
    count
}

/// The configured backends with their active builds.
#[derive(Clone, Debug)]
pub struct BackendReport {
    pub backends: Vec<BackendState>,
}

impl BackendReport {
    pub fn from_builds(config: &ServiceConfig, active: &Vec<SharedBuild>) -> (report: Self)
        ensures
            report.backends@.len() == capacities(*config).len(),
            forall|i: int|
                0 <= i < report.backends@.len() ==> {
                    let (target, capacity) = capacities(*config)[i];
                    &&& (#[trigger] report.backends@[i]).backend.shows(target, capacity)
                    &&& report.backends@[i].active_builds == builds_on(active@, target.name@)
                },
    {
        let mut configured = configured_backends(config);
        let ghost targets = capacities(*config);
        let ghost shown = configured@;
        let mut backends: Vec<BackendState> = Vec::new();
        let ghost mut count: int = 0;
        assert(shown.skip(0) =~= shown);
        while configured.len() > 0
            invariant
                show_all(shown, targets),
                0 <= count <= shown.len(),
                configured@ == shown.skip(count),
                backends@.len() == count,
                forall|i: int|
                    0 <= i < count ==> {
                        &&& (#[trigger] backends@[i]).backend.shows(targets[i].0, targets[i].1)
                        &&& backends@[i].active_builds == builds_on(active@, targets[i].0.name@)
                    },
            decreases configured@.len(),
        {
            let backend = configured.remove(0);
            assert(backend == shown[count]);
            assert(shown[count].shows(targets[count].0, targets[count].1));
            let active_builds: usize = count_builds(active, backend.name.as_str());
            backends.push(BackendState { backend, active_builds });
            proof {
                assert(shown.skip(count).remove(0) =~= shown.skip(count + 1));
                count = count + 1;
            }
        }
        BackendReport { backends }
    }
}

/// A build that would be recovered if the service started anew.
#[derive(Clone, Debug)]
pub struct RecoverableBuild {
    pub derivation_path: String,
    pub state: &'static str,
    pub backend_name: String,
    pub backend_kind: &'static str,
    pub recovery: &'static str,
    pub backend_execution_id: Option<String>,
    pub expected_outputs: usize,
}

/// A build as it is shown among those that would be recovered.
pub open spec fn shown_build(build: SharedBuild) -> RecoverableBuild {
    RecoverableBuild {
        derivation_path: build.derivation_path,
        state: named_state(build.state),
        backend_name: build.backend_name,
        backend_kind: build.backend_kind.spec_name(),
        recovery: build.capabilities.execution_recovery.spec_name(),
        backend_execution_id: build.backend_execution_id,
        expected_outputs: build.expected_outputs@.len() as usize,
    }
}

impl RecoverableBuild {
    pub fn from_build(build: &SharedBuild) -> (shown: Self)
        ensures
            shown == shown_build(*build),
    {
        RecoverableBuild {
            derivation_path: build.derivation_path.clone(),
            state: state_name(build.state),
            backend_name: build.backend_name.clone(),
            backend_kind: build.backend_kind.as_str(),
            recovery: build.capabilities.execution_recovery.as_str(),
            backend_execution_id: copy_option(&build.backend_execution_id),
            expected_outputs: build.expected_outputs.len(),
        }
    }
}

/// The builds that would be recovered, oldest first.
#[derive(Clone, Debug)]
pub struct RecoveryReport {
    pub builds: Vec<RecoverableBuild>,
}

impl RecoveryReport {
    pub fn from_builds(active: &Vec<SharedBuild>) -> (report: Self)
        ensures
            report.builds@ == active@.map_values(|build: SharedBuild| shown_build(build)),
    {
        let mut builds: Vec<RecoverableBuild> = Vec::new();
        let mut i: usize = 0;
        while i < active.len()
            invariant
                i <= active@.len(),
                builds@.len() == i,
                forall|j: int| 0 <= j < i ==> #[trigger] builds@[j] == shown_build(active@[j]),
            decreases active@.len() - i,
        {
            builds.push(RecoverableBuild::from_build(&active[i]));
            i += 1;
        }
        assert(builds@ =~= active@.map_values(|build: SharedBuild| shown_build(build)));
        RecoveryReport { builds }
    }
}

/// A build is shown in the state that its name stands for where it is recorded, and so is an
/// attempt.
pub proof fn states_are_shown_by_their_names(state: SharedBuildState, attempt: SharedBuildAttempt)
    ensures
        SharedBuildState::named(named_state(state)@) == Some(state),
        SharedBuildAttemptState::named(shown_attempt(attempt).state@) == Some(attempt.state),
        shown_attempt(attempt).ordinal == attempt.ordinal,
{
    reveal_strlit("claimed");
    reveal_strlit("running");
    reveal_strlit("collecting");
    reveal_strlit("succeeded");
    reveal_strlit("failed");
    assert("claimed"@[0] == 'c' && "running"@[0] == 'r');
    assert("claimed"@ != "running"@);
    assert("claimed"@.len() == 7 && "running"@.len() == 7 && "collecting"@.len() == 10);
    assert("succeeded"@.len() == 9 && "failed"@.len() == 6);
    match state {
        SharedBuildState::Claimed => {},
        SharedBuildState::Running => {},
        SharedBuildState::Collecting => {},
        SharedBuildState::Succeeded => {},
        SharedBuildState::Failed => {},
    }
}

/// A moment is shown in whole seconds, rounded down, and as the epoch where it is before it.
pub proof fn moments_are_rounded_down(moment: Moment)
    ensures
        moment < 0 ==> seconds_of(moment) == 0,
        moment >= 0 ==> seconds_of(moment) * 1_000_000 <= moment < (seconds_of(moment) + 1)
            * 1_000_000,
{
}

/// What is shown of a build that waits, and of one that would be recovered, is what it is.
pub proof fn builds_are_shown_as_they_are(entry: SharedBuildQueueEntry, build: SharedBuild)
    ensures
        shown_entry(entry).derivation_path@ == entry.derivation_path@,
        shown_entry(entry).quota_subject@ == entry.quota_subject@,
        shown_entry(entry).queue_position == entry.queue_position,
        shown_build(build).derivation_path@ == build.derivation_path@,
        SharedBuildState::named(shown_build(build).state@) == Some(build.state),
        shown_build(build).backend_name@ == build.backend_name@,
        shown_build(build).backend_execution_id == build.backend_execution_id,
        build.expected_outputs@.len() <= usize::MAX ==> shown_build(build).expected_outputs
            == build.expected_outputs@.len(),
{
    states_are_shown_by_their_names(build.state, arbitrary());
}

/// The builds of a backend are as many as there are builds with its name.
pub proof fn builds_of_a_backend_are_counted(builds: Seq<SharedBuild>, name: Seq<char>)
    ensures
        builds_on(builds, name) == builds.filter(
            |build: SharedBuild| build.backend_name@ == name,
        ).len(),
    decreases builds.len(),
{
    reveal(Seq::filter);
    if builds.len() > 0 {
        builds_of_a_backend_are_counted(builds.drop_last(), name);
    }
}

/// Every configured backend is listed with its own capacity, each in its place: the local one, those
/// over SSH, and those on Nomad.
pub proof fn every_backend_has_its_capacity(config: ServiceConfig)
    ensures
        ({
            let listed = capacities(config);
            let first: int = if config.local_backend is Some {
                1
            } else {
                0
            };
            let ssh = config.static_ssh_backends@;
            let nomad = config.nomad_backends@;
            &&& listed.len() == first + ssh.len() + nomad.len()
            &&& (config.local_backend matches Some(local) ==> listed[0].0 == local.target
                && listed[0].1 == local.maximum_concurrent_builds)
            &&& forall|i: int|
                0 <= i < ssh.len() ==> listed[first + i].0 == (#[trigger] ssh[i]).target
                    && listed[first + i].1 == ssh[i].maximum_concurrent_builds
            &&& forall|i: int|
                0 <= i < nomad.len() ==> listed[first + ssh.len() + i].0 == (
                #[trigger] nomad[i]).target && listed[first + ssh.len() + i].1
                    == nomad[i].maximum_concurrent_builds
        }),
{
}

} // verus!
