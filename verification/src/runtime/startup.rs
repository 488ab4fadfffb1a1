//! How the daemon and the local executor start: one thing after another, and not at all where one
//! of them fails.

use crate::fault::{self, invalid_input, Fault};
use vstd::prelude::*;

verus! {

/// Something that is done on the way up.
#[derive(Clone, Copy, Debug)]
pub enum StartupAction {
    LoadConfiguration,
    ReadTransferLimits,
    ReadDiskReserve,
    OpenGatewayStore,
    RequireDatabase,
    Migrate,
    AcquireOwnership,
    AcquireExecutorOwnership,
    ReconcileRetention,
    ConfigureBackends,
    /// Read the builds that have not ended, and tell how many there are.
    ReadActiveBuilds,
    /// Reconcile these builds, and tell how many are still to be watched.
    ReconcileBuilds,
    CountBuilds,
    StartScheduler,
    /// Watch one of the builds.
    StartRecoveryMonitor(usize),
    StartStaticSshHealth,
    BindCallback,
    StartCallback,
    PrepareSocket,
    BindSocket,
    ProtectSocket,
    OpenExecutor,
    StartMaintenance,
    RegisterSignals,
    ListenWithoutBlocking,
    /// Give up with this failure.
    Fail(Fault),
}

/// What came of it.
#[derive(Clone, Copy, Debug)]
pub enum StartupReply {
    Done,
    Count(usize),
    Failed(Fault),
}

/// What to do next on the way up.
#[derive(Clone, Copy, Debug)]
pub enum StartupStep {
    Perform(StartupAction),
    Refuse(Fault),
    Started,
}

/// The failure that is reported where something fails.
pub open spec fn reported(action: StartupAction, fault: Fault) -> Fault {
    match action {
        StartupAction::LoadConfiguration => fault::input_fault("database migration failed"),
        StartupAction::RequireDatabase => fault::input_fault("database migration failed"),
        StartupAction::Migrate => fault::input_fault("database migration failed"),
        StartupAction::AcquireOwnership => fault::input_fault("singleton daemon ownership refused"),
        StartupAction::AcquireExecutorOwnership => fault::input_fault(
            "local executor ownership refused",
        ),
        StartupAction::ReadActiveBuilds => fault::input_fault("shared build recovery failed"),
        StartupAction::CountBuilds => fault::input_fault(
            "shared build metric reconciliation failed",
        ),
        StartupAction::StartScheduler => fault::input_fault(
            "shared build scheduler initialization failed",
        ),
        StartupAction::StartRecoveryMonitor(_) => fault::input_fault(
            "shared build recovery monitor failed",
        ),
        _ => fault,
    }
}

fn report(action: StartupAction, fault: Fault) -> (shown: Fault)
    ensures
        shown == reported(action, fault),
{
    match action {
        StartupAction::LoadConfiguration => invalid_input("database migration failed"),
        StartupAction::RequireDatabase => invalid_input("database migration failed"),
        StartupAction::Migrate => invalid_input("database migration failed"),
        StartupAction::AcquireOwnership => invalid_input("singleton daemon ownership refused"),
        StartupAction::AcquireExecutorOwnership => invalid_input(
            "local executor ownership refused",
        ),
        StartupAction::ReadActiveBuilds => invalid_input("shared build recovery failed"),
        StartupAction::CountBuilds => invalid_input("shared build metric reconciliation failed"),
        StartupAction::StartScheduler => invalid_input(
            "shared build scheduler initialization failed",
        ),
        StartupAction::StartRecoveryMonitor(_) => invalid_input(
            "shared build recovery monitor failed",
        ),
        _ => fault,
    }
}

/// The place of the first reply from a place on that is a failure.
pub open spec fn first_failure(history: Seq<StartupReply>, place: int) -> Option<int>
    decreases history.len() - place,
{
    if place >= history.len() {
        None
    } else if history[place] is Failed {
        Some(place)
    } else {
        first_failure(history, place + 1)
    }
}

/// How a script is followed: the first failure ends it, and else the next line is due.
pub open spec fn following_step(
    script: Seq<StartupAction>,
    history: Seq<StartupReply>,
) -> StartupStep {
    match first_failure(history, 0) {
        Some(place) => if place < script.len() {
            StartupStep::Refuse(reported(script[place], history[place]->Failed_0))
        } else {
            StartupStep::Started
        },
        None => if history.len() >= script.len() {
            StartupStep::Started
        } else {
            match script[history.len() as int] {
                StartupAction::Fail(fault) => StartupStep::Refuse(fault),
                action => StartupStep::Perform(action),
            }
        },
    }
}

fn follow(script: &Vec<StartupAction>, history: &Vec<StartupReply>) -> (step: StartupStep)
    ensures
        step == following_step(script@, history@),
{
    let mut i: usize = 0;
    while i < history.len()
        invariant
            i <= history@.len(),
            first_failure(history@, 0) == first_failure(history@, i as int),
        decreases history@.len() - i,
    {
        if let StartupReply::Failed(fault) = history[i] {
            return if i < script.len() {
                StartupStep::Refuse(report(script[i], fault))
            } else {
                StartupStep::Started
            };
        }
        i += 1;
    }
    if history.len() >= script.len() {
        return StartupStep::Started;
    }
    match script[history.len()] {
        StartupAction::Fail(fault) => StartupStep::Refuse(fault),
        action => StartupStep::Perform(action),
    }
}

/// What the daemon's script depends on besides the replies.
#[derive(Clone, Copy, Debug)]
pub struct StartupSettings {
    /// There are backends that call back.
    pub callbacks: bool,
    /// The gateway store has an endpoint.
    pub endpoint: bool,
    /// What is wrong with the arguments that name the socket and the user of frontends.
    pub socket_fault: Option<Fault>,
    pub uid_fault: Option<Fault>,
    /// A single connection is to be served.
    pub once: bool,
}

/// The place in the daemon's script at which the builds are read that have not ended.
pub const ACTIVE_BUILDS_PLACE: usize = 9;

/// The number that a reply gives, if it is there and gives one.
pub open spec fn count_at(history: Seq<StartupReply>, place: int) -> usize {
    if place < history.len() {
        match history[place] {
            StartupReply::Count(count) => count,
            _ => 0,
        }
    } else {
        0
    }
}

fn read_count(history: &Vec<StartupReply>, place: usize) -> (count: usize)
    ensures
        count == count_at(history@, place as int),
{
    if place < history.len() {
        match history[place] {
            StartupReply::Count(count) => count,
            _ => 0,
        }
    } else {
        0
    }
}

/// How many builds are to be watched: none where none was to be reconciled.
pub open spec fn monitors(history: Seq<StartupReply>) -> usize {
    if count_at(history, ACTIVE_BUILDS_PLACE as int) > 0 {
        count_at(history, ACTIVE_BUILDS_PLACE + 1)
    } else {
        0
    }
}

/// Up to and with the reading of the builds that have not ended.
pub open spec fn opening() -> Seq<StartupAction> {
    seq![
        StartupAction::LoadConfiguration,
        StartupAction::ReadTransferLimits,
        StartupAction::ReadDiskReserve,
        StartupAction::OpenGatewayStore,
        StartupAction::RequireDatabase,
        StartupAction::Migrate,
        StartupAction::AcquireOwnership,
        StartupAction::ReconcileRetention,
        StartupAction::ConfigureBackends,
        StartupAction::ReadActiveBuilds,
    ]
}

/// The recovery of builds, each of those to be watched with a monitor of its own.
pub open spec fn recovering(active: usize, monitored: usize) -> Seq<StartupAction> {
    (if active > 0 {
        seq![StartupAction::ReconcileBuilds]
    } else {
        Seq::empty()
    }) + seq![StartupAction::CountBuilds, StartupAction::StartScheduler] + Seq::new(
        monitored as nat,
        |i: int| StartupAction::StartRecoveryMonitor(i as usize),
    ) + seq![StartupAction::StartStaticSshHealth]
}

/// The service that workers call back, where there are such workers.
pub open spec fn calling_back(settings: StartupSettings) -> Seq<StartupAction> {
    if !settings.callbacks {
        Seq::empty()
    } else if settings.endpoint {
        seq![StartupAction::BindCallback, StartupAction::StartCallback]
    } else {
        seq![
            StartupAction::BindCallback,
            StartupAction::Fail(fault::input_fault("gateway store endpoint is not configured")),
        ]
    }
}

/// The socket, and what keeps the daemon running unless it serves a single connection.
pub open spec fn listening(settings: StartupSettings) -> Seq<StartupAction> {
    match (settings.socket_fault, settings.uid_fault) {
        (Some(fault), _) => seq![StartupAction::Fail(fault)],
        (None, Some(fault)) => seq![StartupAction::Fail(fault)],
        (None, None) => seq![
            StartupAction::PrepareSocket,
            StartupAction::BindSocket,
            StartupAction::ProtectSocket,
        ] + if settings.once {
            Seq::empty()
        } else {
            seq![
                StartupAction::StartMaintenance,
                StartupAction::RegisterSignals,
                StartupAction::ListenWithoutBlocking,
            ]
        },
    }
}

/// Everything that the daemon does on the way up.
pub open spec fn daemon_script(settings: StartupSettings, history: Seq<StartupReply>) -> Seq<
    StartupAction,
> {
    opening() + recovering(
        count_at(history, ACTIVE_BUILDS_PLACE as int),
        monitors(history),
    ) + calling_back(settings) + listening(settings)
}

fn opening_actions() -> (script: Vec<StartupAction>)
    ensures
        script@ == opening(),
{
    let mut script: Vec<StartupAction> = Vec::new();
    script.push(StartupAction::LoadConfiguration);
    script.push(StartupAction::ReadTransferLimits);
    script.push(StartupAction::ReadDiskReserve);
    script.push(StartupAction::OpenGatewayStore);
    script.push(StartupAction::RequireDatabase);
    script.push(StartupAction::Migrate);
    script.push(StartupAction::AcquireOwnership);
    script.push(StartupAction::ReconcileRetention);
    script.push(StartupAction::ConfigureBackends);
    script.push(StartupAction::ReadActiveBuilds);
    assert(script@ =~= opening());
    script
}

fn push_recovering(script: &mut Vec<StartupAction>, active: usize, monitored: usize)
    ensures
        final(script)@ == old(script)@ + recovering(active, monitored),
{
    let ghost given = script@;
    if active > 0 {
        script.push(StartupAction::ReconcileBuilds);
    }
    script.push(StartupAction::CountBuilds);
    script.push(StartupAction::StartScheduler);
    let ghost before = script@;
    let mut i: usize = 0;
    assert(before =~= before + Seq::new(
        0,
        |j: int| StartupAction::StartRecoveryMonitor(j as usize),
    ));
    while i < monitored
        invariant
            i <= monitored,
            script@ == before + Seq::new(
                i as nat,
                |j: int| StartupAction::StartRecoveryMonitor(j as usize),
            ),
        decreases monitored - i,
    {
        script.push(StartupAction::StartRecoveryMonitor(i));
        i += 1;
        assert(script@ =~= before + Seq::new(
            i as nat,
            |j: int| StartupAction::StartRecoveryMonitor(j as usize),
        ));
    }
    script.push(StartupAction::StartStaticSshHealth);
    assert(script@ =~= given + recovering(active, monitored));
}

fn push_calling_back(script: &mut Vec<StartupAction>, settings: &StartupSettings)
    ensures
        final(script)@ == old(script)@ + calling_back(*settings),
{
    let ghost given = script@;
    if settings.callbacks {
        script.push(StartupAction::BindCallback);
        if settings.endpoint {
            script.push(StartupAction::StartCallback);
        } else {
            script.push(
                StartupAction::Fail(invalid_input("gateway store endpoint is not configured")),
            );
        }
    }
    assert(script@ =~= given + calling_back(*settings));
}

fn push_listening(script: &mut Vec<StartupAction>, settings: &StartupSettings)
    ensures
        final(script)@ == old(script)@ + listening(*settings),
{
    let ghost given = script@;
    match (settings.socket_fault, settings.uid_fault) {
        (Some(fault), _) => {
            script.push(StartupAction::Fail(fault));
        },
        (None, Some(fault)) => {
            script.push(StartupAction::Fail(fault));
        },
        (None, None) => {
            script.push(StartupAction::PrepareSocket);
            script.push(StartupAction::BindSocket);
            script.push(StartupAction::ProtectSocket);
            if !settings.once {
                script.push(StartupAction::StartMaintenance);
                script.push(StartupAction::RegisterSignals);
                script.push(StartupAction::ListenWithoutBlocking);
            }
        },
    }
    assert(script@ =~= given + listening(*settings));
}

/// Brings the daemon up.
pub fn start_daemon(settings: &StartupSettings, history: &Vec<StartupReply>) -> (step: StartupStep)
    ensures
        step == following_step(daemon_script(*settings, history@), history@),
{
    let active: usize = read_count(history, ACTIVE_BUILDS_PLACE);
    let monitored: usize = if active > 0 {
        read_count(history, ACTIVE_BUILDS_PLACE + 1)
    } else {
        0
    };
    let mut script = opening_actions();
    push_recovering(&mut script, active, monitored);
    push_calling_back(&mut script, settings);
    push_listening(&mut script, settings);
    follow(&script, history)
}

/// Everything that the local executor does on the way up.
pub open spec fn executor_script(socket_fault: Option<Fault>) -> Seq<StartupAction> {
    seq![
        StartupAction::LoadConfiguration,
        StartupAction::RequireDatabase,
        StartupAction::Migrate,
        StartupAction::AcquireExecutorOwnership,
    ] + match socket_fault {
        Some(fault) => seq![StartupAction::Fail(fault)],
        None => seq![
            StartupAction::PrepareSocket,
            StartupAction::BindSocket,
            StartupAction::ProtectSocket,
            StartupAction::OpenExecutor,
        ],
    }
}

/// Brings the local executor up.
pub fn start_executor(socket_fault: Option<Fault>, history: &Vec<StartupReply>) -> (step:
    StartupStep)
    ensures
        step == following_step(executor_script(socket_fault), history@),
{
    let mut script: Vec<StartupAction> = Vec::new();
    script.push(StartupAction::LoadConfiguration);
    script.push(StartupAction::RequireDatabase);
    script.push(StartupAction::Migrate);
    script.push(StartupAction::AcquireExecutorOwnership);
    match socket_fault {
        Some(fault) => {
            script.push(StartupAction::Fail(fault));
        },
        None => {
            script.push(StartupAction::PrepareSocket);
            script.push(StartupAction::BindSocket);
            script.push(StartupAction::ProtectSocket);
            script.push(StartupAction::OpenExecutor);
        },
    }
    assert(script@ =~= executor_script(socket_fault));
    follow(&script, history)
}

/// The first failure is a failure, and nothing before it is one.
pub proof fn failure_is_first(history: Seq<StartupReply>, place: int)
    requires
        0 <= place,
    ensures
        match first_failure(history, place) {
            Some(found) => place <= found < history.len() && history[found] is Failed && forall|i: int|
                place <= i < found ==> !(#[trigger] history[i] is Failed),
            None => forall|i: int|
                place <= i < history.len() ==> !(#[trigger] history[i] is Failed),
        },
    decreases history.len() - place,
{
    if place < history.len() && !(history[place] is Failed) {
        failure_is_first(history, place + 1);
    }
}

/// Nothing is done on the way up unless everything before it went well: the database is migrated
/// and owned before anything is read of it, and the socket is bound last.
pub proof fn startup_keeps_its_order(
    settings: StartupSettings,
    history: Seq<StartupReply>,
    action: StartupAction,
)
    requires
        following_step(daemon_script(settings, history), history) == StartupStep::Perform(action),
    ensures
        forall|i: int| 0 <= i < history.len() ==> !(#[trigger] history[i] is Failed),
        history.len() < daemon_script(settings, history).len(),
        action == daemon_script(settings, history)[history.len() as int],
        action is ReconcileRetention ==> history.len() == 7,
        action is ReadActiveBuilds ==> history.len() == 9,
        action is BindSocket ==> history.len() > 9,
{
    failure_is_first(history, 0);
    let script = daemon_script(settings, history);
    let place = history.len() as int;
    assert(script.take(10) =~= opening());
    if place >= 10 {
        let active = count_at(history, ACTIVE_BUILDS_PLACE as int);
        let recovery = recovering(active, monitors(history));
        let rest = recovery + calling_back(settings) + listening(settings);
        assert(script =~= opening() + rest);
        assert(script[place] == rest[place - 10]);
        assert forall|i: int| 0 <= i < rest.len() implies !(rest[i] is ReconcileRetention) && !(
        rest[i] is ReadActiveBuilds) by {
            if i < recovery.len() {
                assert(rest[i] == recovery[i]);
            } else if i < recovery.len() + calling_back(settings).len() {
                assert(rest[i] == calling_back(settings)[i - recovery.len()]);
            } else {
                assert(rest[i] == listening(
                    settings,
                )[i - recovery.len() - calling_back(settings).len()]);
            }
        }
    } else {
        assert(script[place] == script.take(10)[place]);
    }
}

/// What is done to serve a single connection.
#[derive(Clone, Copy, Debug, PartialEq, Eq, Structural)]
pub enum OnceAction {
    Serve,
    ShutDownCallback,
    ShutDownMonitor(usize),
}

/// What to do next for a single connection.
#[derive(Clone, Copy, Debug)]
pub enum OnceStep {
    Perform(OnceAction),
    Finish(Result<(), Fault>),
}

/// What is shut down after the connection.
pub open spec fn once_services(callbacks: bool, monitored: usize) -> Seq<OnceAction> {
    (if callbacks {
        seq![OnceAction::ShutDownCallback]
    } else {
        Seq::empty()
    }) + Seq::new(monitored as nat, |i: int| OnceAction::ShutDownMonitor(i as usize))
}

/// The first failure among results from a place on.
pub open spec fn first_fault(results: Seq<Result<(), Fault>>, place: int) -> Option<Fault>
    decreases results.len() - place,
{
    if place >= results.len() {
        None
    } else {
        match results[place] {
            Err(fault) => Some(fault),
            Ok(_) => first_fault(results, place + 1),
        }
    }
}

/// How a single connection is served: whatever came of it, the services are shut down, and the
/// first that cannot be is what is reported.
pub open spec fn once_step(
    callbacks: bool,
    monitored: usize,
    history: Seq<Result<(), Fault>>,
) -> OnceStep {
    let services = once_services(callbacks, monitored);
    if history.len() == 0 {
        OnceStep::Perform(OnceAction::Serve)
    } else {
        match first_fault(history, 1) {
            Some(fault) => OnceStep::Finish(Err(fault)),
            None => if history.len() - 1 < services.len() {
                OnceStep::Perform(services[history.len() - 1])
            } else {
                OnceStep::Finish(history[0])
            },
        }
    }
}

/// Serves a single connection and shuts the services down.
pub fn serve_once(callbacks: bool, monitored: usize, history: &Vec<Result<(), Fault>>) -> (step:
    OnceStep)
    ensures
        step == once_step(callbacks, monitored, history@),
{
    if history.len() == 0 {
        return OnceStep::Perform(OnceAction::Serve);
    }
    let mut i: usize = 1;
    while i < history.len()
        invariant
            1 <= i <= history@.len(),
            first_fault(history@, 1) == first_fault(history@, i as int),
        decreases history@.len() - i,
    {
        if let Err(fault) = history[i] {
            return OnceStep::Finish(Err(fault));
        }
        i += 1;
    }
    let done: usize = history.len() - 1;
    if callbacks {
        if done == 0 {
            return OnceStep::Perform(OnceAction::ShutDownCallback);
        }
        if done - 1 < monitored {
            return OnceStep::Perform(OnceAction::ShutDownMonitor(done - 1));
        }
    } else if done < monitored {
        return OnceStep::Perform(OnceAction::ShutDownMonitor(done));
    }
    OnceStep::Finish(history[0])
}

} // verus!
