//! The course that the connection of a worker takes, from its first message to its end.

use crate::fault::Fault;
use crate::nomad_callback_service::{
    self, BuildCollectionOutcome, BuildIdentity, ConnectionAction, ConnectionEvent,
    ConnectionStage, ExecutionFacts, FailureReport,
};
use crate::nomad_transfer_authentication::Authentication;
use crate::nomad_transfer_protocol::{FrameKind, Phase};
use crate::service::config::model::NomadBackendConfig;
use vstd::prelude::*;

verus! {

/// A connection as it went: every event found it in a stage, led to the next one and was answered
/// by an action.
pub open spec fn went(
    stages: Seq<ConnectionStage>,
    events: Seq<ConnectionEvent>,
    actions: Seq<ConnectionAction>,
    backends: Seq<NomadBackendConfig>,
) -> bool {
    &&& stages.len() == events.len() + 1
    &&& actions.len() == events.len()
    &&& forall|i: int|
        0 <= i < events.len() ==> nomad_callback_service::connection_step(
            stages[i],
            #[trigger] events[i],
            backends,
        ) == Ok::<(ConnectionStage, ConnectionAction), Fault>((stages[i + 1], actions[i]))
}

/// What is to be recorded of a build once its outputs were received, or were not.
pub open spec fn records(
    build: BuildIdentity,
    received: Result<BuildCollectionOutcome, Fault>,
    action: ConnectionAction,
) -> bool {
    match action {
        ConnectionAction::RecordSuccess(recorded) => recorded == build && (received matches Ok(
            outcome,
        ) && outcome is Built),
        ConnectionAction::RecordFailure { derivation_path, classification, report } => {
            &&& derivation_path == build.derivation_path
            &&& match received {
                Ok(BuildCollectionOutcome::Failed { diagnostic }) => classification@
                    == "nomad-build-failure"@ && report == FailureReport::Diagnostic(diagnostic),
                Ok(BuildCollectionOutcome::Built) => false,
                Err(_) => classification@ == "nomad-transfer-failure"@ && (report matches
                    FailureReport::Stage(stage) && stage@ == "output-collection"@),
            }
        },
        _ => false,
    }
}

/// What a connection is closed with: the fault of the collection, if it had one.
pub open spec fn closes(
    received: Result<BuildCollectionOutcome, Fault>,
    recorded: bool,
    action: ConnectionAction,
) -> bool {
    match received {
        Err(refusal) => action == ConnectionAction::Close(Err(refusal)),
        Ok(_) => recorded && action == ConnectionAction::Close(Ok(())),
    }
}

/// A connection that has come to the collection of outputs is closed only after the end of its
/// build was asked to be recorded: as built where the outputs were, as a failure of the build with
/// the diagnostic of the worker where the worker reported one, and as a failure of the transfer
/// where the collection itself failed.
pub proof fn collected_build_is_recorded_before_the_end(
    stages: Seq<ConnectionStage>,
    events: Seq<ConnectionEvent>,
    actions: Seq<ConnectionAction>,
    backends: Seq<NomadBackendConfig>,
    at: int,
    build: BuildIdentity,
)
    requires
        went(stages, events, actions, backends),
        0 <= at < stages.len(),
        stages[at] == (ConnectionStage::Collecting { build }),
        stages.last() is Closed,
    ensures
        stages.len() == at + 3,
        events[at] matches ConnectionEvent::OutputsReceived(received) && (events[at
            + 1] matches ConnectionEvent::Recorded(recorded) && records(
            build,
            received,
            actions[at],
        ) && closes(received, recorded, actions[at + 1])),
{
    assert(nomad_callback_service::connection_step(stages[at], events[at], backends) is Ok);
    assert(nomad_callback_service::connection_step(stages[at + 1], events[at + 1], backends) is Ok);
    assert(stages[at + 2] is Closed);
    if at + 3 < stages.len() {
        assert(nomad_callback_service::connection_step(stages[at + 2], events[at + 2], backends)
            is Ok);
    }
}

/// Once the outputs were received, or were not, the end of the build is asked to be recorded, and
/// once it was, the connection is closed. Where a build could not be recorded the connection fails,
/// unless it failed already.
pub proof fn collected_build_is_recorded(
    build: BuildIdentity,
    received: Result<BuildCollectionOutcome, Fault>,
    recorded: bool,
    backends: Seq<NomadBackendConfig>,
)
    ensures
        nomad_callback_service::connection_step(
            ConnectionStage::Collecting { build },
            ConnectionEvent::OutputsReceived(received),
            backends,
        ) matches Ok((stage, action)) && {
            let end = nomad_callback_service::connection_step(
                stage,
                ConnectionEvent::Recorded(recorded),
                backends,
            );
            &&& records(build, received, action)
            &&& match end {
                Ok((last, closing)) => last is Closed && closes(received, recorded, closing),
                Err(fault) => received is Ok && !recorded && fault.kind is Other,
            }
        },
{
}

/// A worker is served by the first backend of the name that it gave.
pub open spec fn is_first_named(
    backends: Seq<NomadBackendConfig>,
    name: Seq<char>,
    place: int,
) -> bool {
    &&& 0 <= place < backends.len()
    &&& backends[place].target.name@ == name
    &&& forall|i: int| 0 <= i < place ==> (#[trigger] backends[i]).target.name@ != name
}

/// The place of a backend is that of the first one with its name.
pub proof fn backend_place_is_the_first(
    backends: Seq<NomadBackendConfig>,
    name: Seq<char>,
    place: int,
)
    requires
        is_first_named(backends, name, place),
    ensures
        nomad_callback_service::backend_place(backends, name) == Some(place),
    decreases backends.len(),
{
    if place > 0 {
        assert(backends[0].target.name@ != name);
        let rest = backends.drop_first();
        assert forall|i: int| 0 <= i < place - 1 implies (#[trigger] rest[i]).target.name@
            != name by {
            assert(rest[i] == backends[i + 1]);
        }
        assert(rest[place - 1] == backends[place]);
        backend_place_is_the_first(rest, name, place - 1);
    }
}

/// Where there is no backend of a name there is no place for it.
pub proof fn unnamed_backend_has_no_place(backends: Seq<NomadBackendConfig>, name: Seq<char>)
    requires
        forall|i: int| 0 <= i < backends.len() ==> (#[trigger] backends[i]).target.name@ != name,
    ensures
        nomad_callback_service::backend_place(backends, name) is None,
    decreases backends.len(),
{
    if backends.len() > 0 {
        assert(backends[0].target.name@ != name);
        let rest = backends.drop_first();
        assert forall|i: int| 0 <= i < rest.len() implies (#[trigger] rest[i]).target.name@
            != name by {
            assert(rest[i] == backends[i + 1]);
        }
        unnamed_backend_has_no_place(rest, name);
    }
}

/// A place that was found is that of the first backend with its name.
proof fn found_place_is_the_first(backends: Seq<NomadBackendConfig>, name: Seq<char>)
    ensures
        nomad_callback_service::backend_place(backends, name) matches Some(place)
            ==> is_first_named(backends, name, place),
    decreases backends.len(),
{
    if backends.len() > 0 && backends[0].target.name@ != name {
        let rest = backends.drop_first();
        found_place_is_the_first(rest, name);
        if nomad_callback_service::backend_place(rest, name) is Some {
            let place = nomad_callback_service::backend_place(rest, name)->0;
            assert(backends[place + 1] == rest[place]);
            assert forall|i: int| 0 <= i < place + 1 implies (#[trigger] backends[i]).target.name@
                != name by {
                if i > 0 {
                    assert(backends[i] == rest[i - 1]);
                }
            }
        }
    }
}

/// What a worker brings that is served from its first message to the collection of its outputs.
pub struct Admitted {
    pub authentication: Authentication,
    pub execution: ExecutionFacts,
    /// The place of its backend.
    pub place: int,
    pub admitted_at: u128,
    pub sent_at: u128,
    pub answered: FrameKind,
    pub answered_at: u128,
    pub requested: FrameKind,
    pub requested_at: u128,
    /// The phases of the transfer that its answers led to.
    pub answered_phase: Phase,
    pub requested_phase: Phase,
}

/// A frame of the worker is in order in a phase of the transfer and leads to another.
pub open spec fn is_in_order(before: Phase, kind: FrameKind, after: Phase) -> bool {
    match before {
        Phase::ResolvingInputs => if kind is BuildStarted {
            after is Building
        } else {
            (kind is ValidPaths || kind is InputRequest) && after is ResolvingInputs
        },
        Phase::Building => if kind is OutputMetadata {
            after is CollectingOutputs
        } else {
            kind is LogChunk && after is Building
        },
        _ => false,
    }
}

/// The worker gave its own execution, of a derivation with a specification, and a backend that is
/// configured; and it answered before the lifetime of its connection was over.
pub open spec fn may_build(worker: Admitted, backends: Seq<NomadBackendConfig>) -> bool {
    let lifetime = backends[worker.place].transfer_limits.maximum_connection_lifetime.total();
    &&& is_first_named(backends, worker.authentication.backend@, worker.place)
    &&& worker.execution.matches
    &&& worker.execution.derivation_path is Some
    &&& worker.execution.has_build_request
    &&& worker.admitted_at + lifetime <= u128::MAX
    &&& worker.sent_at < worker.admitted_at + lifetime
    &&& worker.answered_at < worker.admitted_at + lifetime
    &&& is_in_order(Phase::ResolvingInputs, worker.answered, worker.answered_phase)
    &&& is_in_order(worker.answered_phase, worker.requested, worker.requested_phase)
}

/// The build of a worker.
pub open spec fn build_of(worker: Admitted) -> BuildIdentity {
    BuildIdentity {
        backend: worker.authentication.backend,
        execution_id: worker.authentication.job_id,
        derivation_path: worker.execution.derivation_path->0,
    }
}

/// The events of a connection on which nothing is refused until outputs are collected.
pub open spec fn arrivals(worker: Admitted) -> Seq<ConnectionEvent> {
    seq![
        ConnectionEvent::Authenticated(Ok(worker.authentication)),
        ConnectionEvent::Resolved(Ok(Some(worker.execution))),
        ConnectionEvent::Admitted(Ok(()), worker.admitted_at),
        ConnectionEvent::ManifestSent(Ok(()), worker.sent_at),
        ConnectionEvent::FrameRead(Ok(worker.answered), worker.answered_at),
        ConnectionEvent::FrameRead(Ok(worker.requested), worker.requested_at),
        ConnectionEvent::InputsStreamed(Ok(())),
    ]
}

/// What is done for a worker until its outputs are collected.
pub open spec fn services(worker: Admitted) -> Seq<ConnectionAction> {
    seq![
        ConnectionAction::ResolveExecution,
        ConnectionAction::Admit(worker.place as usize),
        ConnectionAction::SendManifest,
        ConnectionAction::ReadFrame,
        ConnectionAction::ReadFrame,
        ConnectionAction::StreamInputs,
        ConnectionAction::ReceiveOutputs(worker.requested_phase),
    ]
}

/// A worker that may build is served until the outputs of its own build are collected: its
/// execution is looked up, its proof is verified against its backend, it gets its manifest, its
/// answers are read, and its inputs are streamed.
pub proof fn worker_that_may_build_is_served(worker: Admitted, backends: Seq<NomadBackendConfig>)
    requires
        backends.len() <= usize::MAX,
        may_build(worker, backends),
    ensures
        exists|stages: Seq<ConnectionStage>|
            #![trigger went(stages, arrivals(worker), services(worker), backends)]
            went(
                stages,
                arrivals(worker),
                services(worker),
                backends,
            ) && stages[0] is Authentication
                && stages.last() == (ConnectionStage::Collecting { build: build_of(worker) }),
{
    backend_place_is_the_first(backends, worker.authentication.backend@, worker.place);
    let build = build_of(worker);
    let deadline = (worker.admitted_at
        + backends[worker.place].transfer_limits.maximum_connection_lifetime.total()) as u128;
    let stages = seq![
        ConnectionStage::Authentication,
        ConnectionStage::Execution(worker.authentication),
        ConnectionStage::Admission {
            authentication: worker.authentication,
            execution: worker.execution,
            backend: worker.place as usize,
        },
        ConnectionStage::Manifest { build, deadline },
        ConnectionStage::ValidPaths { build, deadline, phase: Phase::ResolvingInputs },
        ConnectionStage::InputRequest { build, deadline, phase: worker.answered_phase },
        ConnectionStage::Streaming { build, phase: worker.requested_phase },
        ConnectionStage::Collecting { build },
    ];
    let events = arrivals(worker);
    let actions = services(worker);
    assert forall|i: int| 0 <= i < events.len() implies nomad_callback_service::connection_step(
        stages[i],
        #[trigger] events[i],
        backends,
    ) == Ok::<(ConnectionStage, ConnectionAction), Fault>((stages[i + 1], actions[i])) by {
        assert(i == 0 || i == 1 || i == 2 || i == 3 || i == 4 || i == 5 || i == 6);
    }
    assert(went(stages, events, actions, backends));
}

/// The stage in which an event is waited for.
pub open spec fn is_awaited(stage: ConnectionStage, event: ConnectionEvent) -> bool {
    match event {
        ConnectionEvent::Authenticated(_) => stage is Authentication,
        ConnectionEvent::Resolved(_) => stage is Execution,
        ConnectionEvent::Admitted(_, _) => stage is Admission,
        ConnectionEvent::ManifestSent(_, _) => stage is Manifest,
        ConnectionEvent::FrameRead(_, _) => stage is ValidPaths || stage is InputRequest,
        ConnectionEvent::InputsStreamed(_) => stage is Streaming,
        ConnectionEvent::OutputsReceived(_) => stage is Collecting,
        ConnectionEvent::Recorded(_) => stage is RecordingTransferFailure
            || stage is RecordingBuildFailure || stage is RecordingSuccess,
    }
}

/// The fault that an event before the collection brings.
pub open spec fn refusal_in(event: ConnectionEvent) -> Option<Fault> {
    match event {
        ConnectionEvent::Authenticated(Err(refusal)) => Some(refusal),
        ConnectionEvent::Resolved(Err(refusal)) => Some(refusal),
        ConnectionEvent::Admitted(Err(refusal), _) => Some(refusal),
        ConnectionEvent::ManifestSent(Err(refusal), _) => Some(refusal),
        ConnectionEvent::FrameRead(Err(refusal), _) => Some(refusal),
        ConnectionEvent::InputsStreamed(Err(refusal)) => Some(refusal),
        _ => None,
    }
}

/// An event that is not waited for ends the connection, and so does one that brings a fault before
/// outputs are collected, with that fault.
pub proof fn refused_event_ends_the_connection(
    stage: ConnectionStage,
    event: ConnectionEvent,
    backends: Seq<NomadBackendConfig>,
)
    ensures
        !is_awaited(stage, event) ==> nomad_callback_service::connection_step(
            stage,
            event,
            backends,
        ) is Err,
        is_awaited(stage, event) && refusal_in(event) is Some && (stage matches
            ConnectionStage::Admission { backend, .. } ==> backend < backends.len())
            ==> nomad_callback_service::connection_step(stage, event, backends) == Err::<
            (ConnectionStage, ConnectionAction),
            Fault,
        >(refusal_in(event)->0),
{
}

/// A connection that came to the collection of outputs was that of a worker that may build, and was
/// served as such: the build that is collected is its own.
pub proof fn collecting_connection_was_served(
    stages: Seq<ConnectionStage>,
    events: Seq<ConnectionEvent>,
    actions: Seq<ConnectionAction>,
    backends: Seq<NomadBackendConfig>,
)
    requires
        backends.len() <= usize::MAX,
        went(stages, events, actions, backends),
        stages[0] is Authentication,
        stages.last() is Collecting,
    ensures
        exists|worker: Admitted|
            #![trigger may_build(worker, backends)]
            may_build(worker, backends) && events == arrivals(worker) && actions == services(worker)
                && stages.last() == (ConnectionStage::Collecting { build: build_of(worker) }),
{
    let step = |i: int| nomad_callback_service::connection_step(stages[i], events[i], backends);
    assert(events.len() > 0 && step(0) is Ok);
    let authentication = events[0]->Authenticated_0->Ok_0;
    assert(stages[1] == ConnectionStage::Execution(authentication));
    assert(events.len() > 1 && step(1) is Ok);
    found_place_is_the_first(backends, authentication.backend@);
    let execution = events[1]->Resolved_0->Ok_0->0;
    let place = nomad_callback_service::backend_place(backends, authentication.backend@)->0;
    assert(stages[2] == (ConnectionStage::Admission {
        authentication,
        execution,
        backend: place as usize,
    }));
    assert(events.len() > 2 && step(2) is Ok);
    assert(stages[3] is Manifest);
    assert(events.len() > 3 && step(3) is Ok);
    assert(stages[4] is ValidPaths);
    assert(events.len() > 4 && step(4) is Ok);
    assert(stages[5] is InputRequest);
    assert(events.len() > 5 && step(5) is Ok);
    assert(stages[6] is Streaming);
    assert(events.len() > 6 && step(6) is Ok);
    assert(stages[7] is Collecting);
    if events.len() > 7 {
        assert(step(7) is Ok);
        assert(stages[8] !is Collecting);
        if events.len() > 8 {
            assert(step(8) is Ok);
            assert(stages[9] is Closed);
            if events.len() > 9 {
                assert(step(9) is Ok);
            }
        }
    }
    assert(events.len() == 7);
    let worker = Admitted {
        authentication,
        execution,
        place,
        admitted_at: events[2]->Admitted_1,
        sent_at: events[3]->ManifestSent_1,
        answered: events[4]->FrameRead_0->Ok_0,
        answered_at: events[4]->FrameRead_1,
        requested: events[5]->FrameRead_0->Ok_0,
        requested_at: events[5]->FrameRead_1,
        answered_phase: stages[5]->InputRequest_phase,
        requested_phase: stages[6]->Streaming_phase,
    };
    let expected = arrivals(worker);
    assert(events[2]->Admitted_0->Ok_0 == ());
    assert(events[3]->ManifestSent_0->Ok_0 == ());
    assert(events[6]->InputsStreamed_0->Ok_0 == ());
    assert(events[0] == expected[0] && events[1] == expected[1]);
    assert(events[2] == expected[2] && events[3] == expected[3]);
    assert(events[4] == expected[4] && events[5] == expected[5] && events[6] == expected[6]);
    assert(events =~= expected);
    let done = services(worker);
    assert(actions[0] == done[0] && actions[1] == done[1] && actions[2] == done[2]);
    assert(stages[4]->ValidPaths_phase == Phase::ResolvingInputs);
    assert(actions[3] == done[3] && actions[4] == done[4] && actions[5] == done[5]);
    assert(actions[6] == done[6]);
    assert(actions =~= done);
    assert(may_build(worker, backends));
}

} // verus!
