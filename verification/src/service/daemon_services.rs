//! Background work of the daemon: how a worker goes on or ends, and how its end is reported.

use crate::fault::{self, invalid_input, Fault, FaultKind};
use crate::time::Span;
use vstd::prelude::*;

verus! {

pub const MAINTENANCE_FAILURE: &'static str = "output retention maintenance failed";

pub const RECOVERY_FAILURE: &'static str = "shared build recovery monitor failed";

pub const HEALTH_FAILURE: &'static str = "static SSH health monitor failed";

/// What is known of a worker.
#[derive(Clone, Copy, Debug, PartialEq, Eq, Structural)]
pub enum BackgroundServiceState {
    Running,
    Completed,
    Failed,
}

/// What was found when the result of a worker was looked for.
#[derive(Clone, Copy, Debug, PartialEq, Eq, Structural)]
pub enum Polled {
    /// The worker has ended well.
    Finished,
    /// The worker has ended with a failure.
    Failed,
    /// The worker has not ended.
    Empty,
    /// The worker is gone without a result.
    Disconnected,
}

/// What woke a worker.
#[derive(Clone, Copy, Debug, PartialEq, Eq, Structural)]
pub enum Wake {
    /// It has to stop, or nobody is left to tell it so.
    Stop,
    /// Its interval has passed.
    Interval,
}

/// What a worker does next.
#[derive(Clone, Copy, Debug, PartialEq, Eq, Structural)]
pub enum WorkerStep {
    Run,
    Wait,
    EndWell,
    EndWithFailure,
}

/// What a worker does once it has woken up.
pub fn worker_woken(wake: Wake) -> (step: WorkerStep)
    ensures
        step == (match wake {
            Wake::Stop => WorkerStep::EndWell,
            Wake::Interval => WorkerStep::Run,
        }),
{
    match wake {
        Wake::Stop => WorkerStep::EndWell,
        Wake::Interval => WorkerStep::Run,
    }
}

/// What a worker does once it has run: whether it has to run again, or `None` where it failed.
pub fn worker_ran(outcome: Option<bool>) -> (step: WorkerStep)
    ensures
        step == (match outcome {
            Some(true) => WorkerStep::Wait,
            Some(false) => WorkerStep::EndWell,
            None => WorkerStep::EndWithFailure,
        }),
{
    match outcome {
        Some(again) => {
            if again {
                WorkerStep::Wait
            } else {
                WorkerStep::EndWell
            }
        },
        None => WorkerStep::EndWithFailure,
    }
}

/// A worker as the daemon sees it.
#[derive(Clone, Copy, Debug)]
pub struct BackgroundService {
    failure_message: &'static str,
    state: BackgroundServiceState,
}

/// The state of a worker after its result was looked for; once it has ended, it stays so.
pub open spec fn state_after(state: BackgroundServiceState, polled: Polled) -> BackgroundServiceState {
    match state {
        BackgroundServiceState::Running => match polled {
            Polled::Finished => BackgroundServiceState::Completed,
            Polled::Empty => BackgroundServiceState::Running,
            Polled::Failed | Polled::Disconnected => BackgroundServiceState::Failed,
        },
        ended => ended,
    }
}

/// What is reported of a worker in a state.
pub open spec fn reported(state: BackgroundServiceState, message: &'static str) -> Result<
    bool,
    Fault,
> {
    match state {
        BackgroundServiceState::Running => Ok(true),
        BackgroundServiceState::Completed => Ok(false),
        BackgroundServiceState::Failed => Err(Fault { kind: FaultKind::Other, message }),
    }
}

/// The same report, without whether the worker still runs.
pub open spec fn outcome_of(report: Result<bool, Fault>) -> Result<(), Fault> {
    match report {
        Ok(_) => Ok(()),
        Err(refusal) => Err(refusal),
    }
}

impl BackgroundService {
    pub closed spec fn spec_state(&self) -> BackgroundServiceState {
        self.state
    }

    pub closed spec fn message(&self) -> &'static str {
        self.failure_message
    }

    /// A worker can be started with an interval that is not zero.
    pub fn start(interval: Span, failure_message: &'static str) -> (service: Result<Self, Fault>)
        ensures
            interval.seconds == 0 && interval.nanoseconds == 0 ==> service == Err::<
                BackgroundService,
                Fault,
            >(fault::input_fault("background service interval must be positive")),
            !(interval.seconds == 0 && interval.nanoseconds == 0) ==> service is Ok
                && service->Ok_0.spec_state() == BackgroundServiceState::Running
                && service->Ok_0.message() == failure_message,
    {
        if interval.is_zero() {
            return Err(invalid_input("background service interval must be positive"));
        }
        Ok(BackgroundService { failure_message, state: BackgroundServiceState::Running })
    }

    /// Reports whether the worker still runs, given what was found where its result is left.
    pub fn check(&mut self, polled: Polled) -> (report: Result<bool, Fault>)
        ensures
            final(self).message() == old(self).message(),
            final(self).spec_state() == state_after(old(self).spec_state(), polled),
            report == reported(final(self).spec_state(), old(self).message()),
    {
        match self.state {
            BackgroundServiceState::Completed => {
                return Ok(false);
            },
            BackgroundServiceState::Failed => {
                return Err(Fault { kind: FaultKind::Other, message: self.failure_message });
            },
            BackgroundServiceState::Running => {},
        }
        match polled {
            Polled::Finished => {
                self.state = BackgroundServiceState::Completed;
                Ok(false)
            },
            Polled::Empty => Ok(true),
            Polled::Failed | Polled::Disconnected => {
                self.state = BackgroundServiceState::Failed;
                Err(Fault { kind: FaultKind::Other, message: self.failure_message })
            },
        }
    }

    /// Reports how the worker ended once it was told to stop; `joined` says whether its thread
    /// could be joined.
    pub fn shutdown(&mut self, joined: bool, polled: Polled) -> (ended: Result<(), Fault>)
        ensures
            final(self).message() == old(self).message(),
            !joined ==> *final(self) == *old(self) && ended == Err::<(), Fault>(
                Fault { kind: FaultKind::Other, message: old(self).message() },
            ),
            joined ==> final(self).spec_state() == state_after(old(self).spec_state(), polled)
                && ended == outcome_of(reported(final(self).spec_state(), old(self).message())),
    {
        if !joined {
            return Err(Fault { kind: FaultKind::Other, message: self.failure_message });
        }
        match self.check(polled) {
            Ok(_) => Ok(()),
            Err(refusal) => Err(refusal),
        }
    }
}

/// A worker that has ended is reported in the same way ever after.
pub proof fn ended_worker_stays_ended(
    state: BackgroundServiceState,
    message: &'static str,
    first: Polled,
    second: Polled,
)
    requires
        state_after(state, first) != BackgroundServiceState::Running,
    ensures
        state_after(state_after(state, first), second) == state_after(state, first),
        reported(state_after(state_after(state, first), second), message) == reported(
            state_after(state, first),
            message,
        ),
{
}

/// Watches whether the hosts of backends over SSH can be reached.
#[derive(Clone, Copy, Debug)]
pub struct StaticSshHealthService(BackgroundService);

impl StaticSshHealthService {
    pub closed spec fn spec_state(&self) -> BackgroundServiceState {
        self.0.spec_state()
    }

    pub closed spec fn message(&self) -> &'static str {
        self.0.message()
    }

    pub fn start(interval: Span) -> (service: Result<Self, Fault>)
        ensures
            interval.seconds == 0 && interval.nanoseconds == 0 ==> service == Err::<
                StaticSshHealthService,
                Fault,
            >(fault::input_fault("background service interval must be positive")),
            !(interval.seconds == 0 && interval.nanoseconds == 0) ==> service is Ok
                && service->Ok_0.spec_state() == BackgroundServiceState::Running
                && service->Ok_0.message() == HEALTH_FAILURE,
    {
        match BackgroundService::start(interval, HEALTH_FAILURE) {
            Ok(service) => Ok(StaticSshHealthService(service)),
            Err(refusal) => Err(refusal),
        }
    }

    pub fn check(&mut self, polled: Polled) -> (report: Result<(), Fault>)
        ensures
            final(self).message() == old(self).message(),
            final(self).spec_state() == state_after(old(self).spec_state(), polled),
            report == outcome_of(reported(final(self).spec_state(), old(self).message())),
    {
        match self.0.check(polled) {
            Ok(_) => Ok(()),
            Err(refusal) => Err(refusal),
        }
    }

    pub fn shutdown(&mut self, joined: bool, polled: Polled) -> (ended: Result<(), Fault>)
        ensures
            final(self).message() == old(self).message(),
            !joined ==> *final(self) == *old(self) && ended == Err::<(), Fault>(
                Fault { kind: FaultKind::Other, message: old(self).message() },
            ),
            joined ==> final(self).spec_state() == state_after(old(self).spec_state(), polled)
                && ended == outcome_of(reported(final(self).spec_state(), old(self).message())),
    {
        self.0.shutdown(joined, polled)
    }
}

/// Removes what is retained for longer than it has to be.
#[derive(Clone, Copy, Debug)]
pub struct MaintenanceService(BackgroundService);

impl MaintenanceService {
    pub closed spec fn spec_state(&self) -> BackgroundServiceState {
        self.0.spec_state()
    }

    pub closed spec fn message(&self) -> &'static str {
        self.0.message()
    }

    pub fn start(interval: Span) -> (service: Result<Self, Fault>)
        ensures
            interval.seconds == 0 && interval.nanoseconds == 0 ==> service == Err::<
                MaintenanceService,
                Fault,
            >(fault::input_fault("background service interval must be positive")),
            !(interval.seconds == 0 && interval.nanoseconds == 0) ==> service is Ok
                && service->Ok_0.spec_state() == BackgroundServiceState::Running
                && service->Ok_0.message() == MAINTENANCE_FAILURE,
    {
        match BackgroundService::start(interval, MAINTENANCE_FAILURE) {
            Ok(service) => Ok(MaintenanceService(service)),
            Err(refusal) => Err(refusal),
        }
    }

    pub fn check(&mut self, polled: Polled) -> (report: Result<(), Fault>)
        ensures
            final(self).message() == old(self).message(),
            final(self).spec_state() == state_after(old(self).spec_state(), polled),
            report == outcome_of(reported(final(self).spec_state(), old(self).message())),
    {
        match self.0.check(polled) {
            Ok(_) => Ok(()),
            Err(refusal) => Err(refusal),
        }
    }

    pub fn shutdown(&mut self, joined: bool, polled: Polled) -> (ended: Result<(), Fault>)
        ensures
            final(self).message() == old(self).message(),
            !joined ==> *final(self) == *old(self) && ended == Err::<(), Fault>(
                Fault { kind: FaultKind::Other, message: old(self).message() },
            ),
            joined ==> final(self).spec_state() == state_after(old(self).spec_state(), polled)
                && ended == outcome_of(reported(final(self).spec_state(), old(self).message())),
    {
        self.0.shutdown(joined, polled)
    }
}

/// Watches one build that was adopted when the daemon started. While it is counted as being
/// monitored, the count of such builds holds one for it.
#[derive(Clone, Copy, Debug)]
pub struct RecoveryMonitorService {
    service: BackgroundService,
    monitoring: bool,
}

/// By how much the count of monitored builds changes when one is no longer counted.
pub open spec fn change_of(monitoring: bool) -> int {
    if monitoring {
        -1
    } else {
        0
    }
}

/// How many builds were found to have succeeded, to have failed, and to be monitored further.
#[derive(Clone, Copy, Debug, PartialEq, Eq, Structural)]
pub struct RecoveryCounts {
    pub succeeded: usize,
    pub failed: usize,
    pub monitoring: usize,
}

/// What is counted of a look at one build that did not fail: the build goes on, or it is counted
/// as one that succeeded.
pub fn recovery_counts(monitoring: bool) -> (counts: RecoveryCounts)
    ensures
        counts == if monitoring {
            RecoveryCounts { succeeded: 0, failed: 0, monitoring: 1 }
        } else {
            RecoveryCounts { succeeded: 1, failed: 0, monitoring: 0 }
        },
{
    if monitoring {
        RecoveryCounts { succeeded: 0, failed: 0, monitoring: 1 }
    } else {
        RecoveryCounts { succeeded: 1, failed: 0, monitoring: 0 }
    }
}

impl RecoveryMonitorService {
    pub closed spec fn spec_state(&self) -> BackgroundServiceState {
        self.service.spec_state()
    }

    pub closed spec fn message(&self) -> &'static str {
        self.service.message()
    }

    /// The build is counted as being monitored.
    pub closed spec fn counted(&self) -> bool {
        self.monitoring
    }

    /// Starts a monitor. The count of monitored builds goes up by one before, and down again after
    /// where the monitor cannot be started: the last two values are these changes.
    pub fn start(interval: Span) -> (started: (Result<Self, Fault>, i64, i64))
        ensures
            started.1 == 1,
            interval.seconds == 0 && interval.nanoseconds == 0 ==> started.0 == Err::<
                RecoveryMonitorService,
                Fault,
            >(fault::input_fault("background service interval must be positive")) && started.2
                == -1,
            !(interval.seconds == 0 && interval.nanoseconds == 0) ==> started.0 is Ok
                && started.0->Ok_0.spec_state() == BackgroundServiceState::Running
                && started.0->Ok_0.message() == RECOVERY_FAILURE && started.0->Ok_0.counted()
                && started.2 == 0,
    {
        match BackgroundService::start(interval, RECOVERY_FAILURE) {
            Ok(service) => (Ok(RecoveryMonitorService { service, monitoring: true }), 1, 0),
            Err(refusal) => (Err(refusal), 1, -1),
        }
    }

    /// Takes note of a look at the build: whether it is still being monitored, or `None` where
    /// the look failed. Returns the change of the count and what the worker does next.
    pub fn reconciled(&mut self, outcome: Option<bool>) -> (next: (i64, WorkerStep))
        ensures
            final(self).spec_state() == old(self).spec_state(),
            final(self).message() == old(self).message(),
            final(self).counted() == (old(self).counted() && outcome == Some(true)),
            next.0 == (if outcome == Some(true) {
                0
            } else {
                change_of(old(self).counted())
            }),
            next.1 == (match outcome {
                Some(true) => WorkerStep::Wait,
                Some(false) => WorkerStep::EndWell,
                None => WorkerStep::EndWithFailure,
            }),
    {
        let step = worker_ran(outcome);
        match outcome {
            Some(true) => (0, step),
            _ => {
                let change = if self.monitoring {
                    -1i64
                } else {
                    0i64
                };
                self.monitoring = false;
                (change, step)
            },
        }
    }

    pub fn check(&mut self, polled: Polled) -> (report: Result<bool, Fault>)
        ensures
            final(self).message() == old(self).message(),
            final(self).counted() == old(self).counted(),
            final(self).spec_state() == state_after(old(self).spec_state(), polled),
            report == reported(final(self).spec_state(), old(self).message()),
    {
        self.service.check(polled)
    }

    /// Reports how the monitor ended, and the change of the count.
    pub fn shutdown(&mut self, joined: bool, polled: Polled) -> (ended: (Result<(), Fault>, i64))
        ensures
            final(self).message() == old(self).message(),
            !final(self).counted(),
            ended.1 == change_of(old(self).counted()),
            !joined ==> final(self).spec_state() == old(self).spec_state() && ended.0 == Err::<
                (),
                Fault,
            >(Fault { kind: FaultKind::Other, message: old(self).message() }),
            joined ==> final(self).spec_state() == state_after(old(self).spec_state(), polled)
                && ended.0 == outcome_of(reported(final(self).spec_state(), old(self).message())),
    {
        let result = self.service.shutdown(joined, polled);
        let change = if self.monitoring {
            -1i64
        } else {
            0i64
        };
        self.monitoring = false;
        (result, change)
    }
}

/// The changes of the count that a monitor makes between its start and its end: after its start
/// it is counted, each look may end that, and so does its end.
pub open spec fn total_change(looks: Seq<Option<bool>>) -> int {
    1 + looks_change(true, looks) + change_of(counted_after(true, looks))
}

/// Whether a build is still counted after some looks at it.
pub open spec fn counted_after(counted: bool, looks: Seq<Option<bool>>) -> bool
    decreases looks.len(),
{
    if looks.len() == 0 {
        counted
    } else {
        counted_after(counted, looks.drop_last()) && looks.last() == Some(true)
    }
}

/// The change of the count by some looks at a build.
pub open spec fn looks_change(counted: bool, looks: Seq<Option<bool>>) -> int
    decreases looks.len(),
{
    if looks.len() == 0 {
        0
    } else {
        looks_change(counted, looks.drop_last()) + if looks.last() == Some(true) {
            0int
        } else {
            change_of(counted_after(counted, looks.drop_last()))
        }
    }
}

/// Whatever a monitor has seen, it leaves the count of monitored builds as it found it.
pub proof fn monitor_leaves_the_count_balanced(looks: Seq<Option<bool>>)
    ensures
        total_change(looks) == 0,
    decreases looks.len(),
{
    if looks.len() > 0 {
        monitor_leaves_the_count_balanced(looks.drop_last());
    }
}

/// A worker that runs is reported as running while nothing came of it, as ended where it finished,
/// and as failed where it failed or went away without a result; what is reported of it once it
/// ended stays as it was.
pub proof fn worker_is_reported_as_it_is(polled: Polled, message: &'static str)
    ensures
        ({
            let report = reported(state_after(BackgroundServiceState::Running, polled), message);
            &&& report == Ok::<bool, Fault>(true) <==> polled is Empty
            &&& report == Ok::<bool, Fault>(false) <==> polled is Finished
            &&& report is Err <==> polled is Failed || polled is Disconnected
            &&& report matches Err(refusal) ==> refusal.message == message
        }),
        reported(state_after(BackgroundServiceState::Failed, polled), message) is Err,
        reported(state_after(BackgroundServiceState::Completed, polled), message) == Ok::<
            bool,
            Fault,
        >(false),
        outcome_of(reported(state_after(BackgroundServiceState::Running, polled), message)) is Err
            <==> polled is Failed || polled is Disconnected,
{
}

} // verus!
