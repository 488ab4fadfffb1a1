//! The daemon while it runs: it watches its services and its ownership, lets sessions in, and shuts
//! everything down in order when it stops.

use crate::fault::{self, invalid_input, Fault, FaultKind};
use crate::time::Span;
use vstd::prelude::*;

verus! {

/// A service that runs beside the daemon.
#[derive(Clone, Copy, Debug, PartialEq, Eq, Structural)]
pub enum DaemonService {
    Callback,
    Maintenance,
    StaticSshHealth,
    /// The monitor at a place among those that are left.
    RecoveryMonitor(usize),
}

/// What the daemon does next.
#[derive(Clone, Copy, Debug)]
pub enum DaemonAction {
    /// Tell whether it was asked to stop.
    ReadShutdownFlag,
    /// Tell whether it was asked to reload its configuration, and forget that.
    TakeReloadFlag,
    Reload,
    CheckHealth,
    CheckMaintenance,
    /// Tell whether the monitor at a place still runs.
    CheckMonitor(usize),
    /// Take the monitor at a place away and shut it down.
    RemoveMonitor(usize),
    ReadClock,
    CheckOwnership,
    /// Read the clock after ownership was found to hold.
    ReadClockAgain,
    Accept,
    Sleep(Span),
    /// Try to take a permit for a session.
    Admit,
    /// Serve the accepted connection in a session of its own.
    Serve,
    /// Drop the accepted connection.
    Reject,
    ShutDown(DaemonService),
    Stop(Result<(), Fault>),
}

/// What came of it.
#[derive(Clone, Copy, Debug)]
pub enum DaemonEvent {
    Done,
    Flag(bool),
    /// Nanoseconds since the daemon started.
    Clock(u64),
    Failed(Fault),
}

/// Where the daemon is.
#[derive(Clone, Copy, Debug)]
pub struct DaemonLoop {
    /// What it was last told to do.
    pub action: DaemonAction,
    /// There is a service that workers call back.
    pub callback: bool,
    /// How many monitors are left.
    pub monitors: usize,
    /// How often ownership is checked, and when it is due next.
    pub check_interval: Span,
    pub next_check: u128,
    /// What it ends with once everything is shut down.
    pub ending: Option<Fault>,
}

impl DaemonLoop {
    /// The daemon at the same place with another thing to do.
    pub open spec fn doing(self, action: DaemonAction) -> DaemonLoop {
        DaemonLoop { action, ..self }
    }

    /// The daemon as it begins to stop.
    pub open spec fn stopping(self, ending: Option<Fault>) -> DaemonLoop {
        DaemonLoop {
            action: DaemonAction::ShutDown(
                if self.callback {
                    DaemonService::Callback
                } else {
                    DaemonService::Maintenance
                },
            ),
            ending,
            ..self
        }
    }

    /// What it ends with.
    pub open spec fn result(self) -> Result<(), Fault> {
        match self.ending {
            Some(fault) => Err(fault),
            None => Ok(()),
        }
    }

    /// The monitors are checked from a place on, and then the clock is read.
    pub open spec fn monitoring(self, place: int) -> DaemonLoop {
        if place < self.monitors {
            self.doing(DaemonAction::CheckMonitor(place as usize))
        } else {
            self.doing(DaemonAction::ReadClock)
        }
    }

    /// What is shut down after a service: the order is that of the services, and a monitor is
    /// followed by the next one.
    pub open spec fn after(self, service: DaemonService) -> DaemonLoop {
        match service {
            DaemonService::Callback => self.doing(
                DaemonAction::ShutDown(DaemonService::Maintenance),
            ),
            DaemonService::Maintenance => self.doing(
                DaemonAction::ShutDown(DaemonService::StaticSshHealth),
            ),
            DaemonService::StaticSshHealth => if self.monitors > 0 {
                self.doing(DaemonAction::ShutDown(DaemonService::RecoveryMonitor(0)))
            } else {
                self.doing(DaemonAction::Stop(self.result()))
            },
            DaemonService::RecoveryMonitor(place) => if place + 1 < self.monitors {
                self.doing(
                    DaemonAction::ShutDown(DaemonService::RecoveryMonitor((place + 1) as usize)),
                )
            } else {
                self.doing(DaemonAction::Stop(self.result()))
            },
        }
    }

    /// The daemon sleeps no longer than until ownership is due.
    pub open spec fn pause(self) -> Span {
        if self.check_interval.total() < Span::spec_milliseconds(10).total() {
            self.check_interval
        } else {
            Span::spec_milliseconds(10)
        }
    }

    /// Where the daemon is after an event.
    pub open spec fn next(self, event: DaemonEvent) -> DaemonLoop {
        match self.action {
            DaemonAction::ReadShutdownFlag => match event {
                DaemonEvent::Flag(true) => self.stopping(None),
                _ => self.doing(DaemonAction::TakeReloadFlag),
            },
            DaemonAction::TakeReloadFlag => match event {
                DaemonEvent::Flag(true) => self.doing(DaemonAction::Reload),
                _ => self.doing(DaemonAction::CheckHealth),
            },
            DaemonAction::Reload => self.doing(DaemonAction::CheckHealth),
            DaemonAction::CheckHealth => match event {
                DaemonEvent::Failed(fault) => self.stopping(Some(fault)),
                _ => self.doing(DaemonAction::CheckMaintenance),
            },
            DaemonAction::CheckMaintenance => match event {
                DaemonEvent::Failed(fault) => self.stopping(Some(fault)),
                _ => self.monitoring(0),
            },
            DaemonAction::CheckMonitor(place) => match event {
                DaemonEvent::Failed(fault) => self.stopping(Some(fault)),
                DaemonEvent::Flag(false) => self.doing(DaemonAction::RemoveMonitor(place)),
                _ => self.monitoring(place + 1),
            },
            DaemonAction::RemoveMonitor(place) => match event {
                DaemonEvent::Failed(fault) => self.doing(DaemonAction::Stop(Err(fault))),
                _ => DaemonLoop {
                    monitors: if self.monitors > 0 {
                        (self.monitors - 1) as usize
                    } else {
                        0
                    },
                    ..self
                }.monitoring(place as int),
            },
            DaemonAction::ReadClock => match event {
                DaemonEvent::Clock(now) => if now >= self.next_check {
                    self.doing(DaemonAction::CheckOwnership)
                } else {
                    self.doing(DaemonAction::Accept)
                },
                _ => self.doing(DaemonAction::Accept),
            },
            DaemonAction::CheckOwnership => match event {
                DaemonEvent::Failed(_) => self.stopping(
                    Some(fault::input_fault("singleton daemon ownership lost")),
                ),
                _ => self.doing(DaemonAction::ReadClockAgain),
            },
            DaemonAction::ReadClockAgain => match event {
                DaemonEvent::Clock(now) => DaemonLoop {
                    next_check: (now + self.check_interval.total()) as u128,
                    ..self
                }.doing(DaemonAction::Accept),
                _ => self.doing(DaemonAction::Accept),
            },
            DaemonAction::Accept => match event {
                DaemonEvent::Done => self.doing(DaemonAction::Admit),
                DaemonEvent::Failed(fault) => if fault.kind == FaultKind::WouldBlock {
                    self.doing(DaemonAction::Sleep(self.pause()))
                } else {
                    self.doing(DaemonAction::ReadShutdownFlag)
                },
                _ => self.doing(DaemonAction::ReadShutdownFlag),
            },
            DaemonAction::Admit => match event {
                DaemonEvent::Flag(true) => self.doing(DaemonAction::Serve),
                _ => self.doing(DaemonAction::Reject),
            },
            DaemonAction::Sleep(_) => self.doing(DaemonAction::ReadShutdownFlag),
            DaemonAction::Serve => self.doing(DaemonAction::ReadShutdownFlag),
            DaemonAction::Reject => self.doing(DaemonAction::ReadShutdownFlag),
            DaemonAction::ShutDown(service) => match event {
                DaemonEvent::Failed(fault) => self.doing(DaemonAction::Stop(Err(fault))),
                _ => self.after(service),
            },
            DaemonAction::Stop(_) => self,
        }
    }

    /// The daemon once it is up.
    pub fn new(callback: bool, monitors: usize, check_interval: Span, now: u64) -> (daemon: Self)
        requires
            check_interval.normal(),
        ensures
            daemon == (DaemonLoop {
                action: DaemonAction::ReadShutdownFlag,
                callback,
                monitors,
                check_interval,
                next_check: (now + check_interval.total()) as u128,
                ending: None,
            }),
    {
        DaemonLoop {
            action: DaemonAction::ReadShutdownFlag,
            callback,
            monitors,
            check_interval,
            next_check: now as u128 + check_interval.nanoseconds_in_all(),
            ending: None,
        }
    }

    fn stop(&mut self, ending: Option<Fault>)
        ensures
            *final(self) == old(self).stopping(ending),
    {
        self.action = DaemonAction::ShutDown(
            if self.callback {
                DaemonService::Callback
            } else {
                DaemonService::Maintenance
            },
        );
        self.ending = ending;
    }

    fn monitor(&mut self, place: usize)
        ensures
            *final(self) == old(self).monitoring(place as int),
    {
        if place < self.monitors {
            self.action = DaemonAction::CheckMonitor(place);
        } else {
            self.action = DaemonAction::ReadClock;
        }
    }

    fn ended(&self) -> (result: Result<(), Fault>)
        ensures
            result == self.result(),
    {
        match self.ending {
            Some(fault) => Err(fault),
            None => Ok(()),
        }
    }

    fn shut_down_next(&mut self, service: DaemonService)
        ensures
            *final(self) == old(self).after(service),
    {
        match service {
            DaemonService::Callback => {
                self.action = DaemonAction::ShutDown(DaemonService::Maintenance);
            },
            DaemonService::Maintenance => {
                self.action = DaemonAction::ShutDown(DaemonService::StaticSshHealth);
            },
            DaemonService::StaticSshHealth => {
                if self.monitors > 0 {
                    self.action = DaemonAction::ShutDown(DaemonService::RecoveryMonitor(0));
                } else {
                    self.action = DaemonAction::Stop(self.ended());
                }
            },
            DaemonService::RecoveryMonitor(place) => {
                if place < self.monitors && place + 1 < self.monitors {
                    self.action = DaemonAction::ShutDown(
                        DaemonService::RecoveryMonitor(place + 1),
                    );
                } else {
                    self.action = DaemonAction::Stop(self.ended());
                }
            },
        }
    }

    /// Takes an event and says what to do next.
    pub fn step(&mut self, event: DaemonEvent) -> (action: DaemonAction)
        requires
            old(self).check_interval.normal(),
        ensures
            *final(self) == old(self).next(event),
            action == final(self).action,
    {
        match self.action {
            DaemonAction::ReadShutdownFlag => match event {
                DaemonEvent::Flag(true) => self.stop(None),
                _ => {
                    self.action = DaemonAction::TakeReloadFlag;
                },
            },
            DaemonAction::TakeReloadFlag => match event {
                DaemonEvent::Flag(true) => {
                    self.action = DaemonAction::Reload;
                },
                _ => {
                    self.action = DaemonAction::CheckHealth;
                },
            },
            DaemonAction::Reload => {
                self.action = DaemonAction::CheckHealth;
            },
            DaemonAction::CheckHealth => match event {
                DaemonEvent::Failed(fault) => self.stop(Some(fault)),
                _ => {
                    self.action = DaemonAction::CheckMaintenance;
                },
            },
            DaemonAction::CheckMaintenance => match event {
                DaemonEvent::Failed(fault) => self.stop(Some(fault)),
                _ => self.monitor(0),
            },
            DaemonAction::CheckMonitor(place) => match event {
                DaemonEvent::Failed(fault) => self.stop(Some(fault)),
                DaemonEvent::Flag(false) => {
                    self.action = DaemonAction::RemoveMonitor(place);
                },
                _ => {
                    if place < self.monitors {
                        self.monitor(place + 1);
                    } else {
                        self.action = DaemonAction::ReadClock;
                    }
                },
            },
            DaemonAction::RemoveMonitor(place) => match event {
                DaemonEvent::Failed(fault) => {
                    self.action = DaemonAction::Stop(Err(fault));
                },
                _ => {
                    if self.monitors > 0 {
                        self.monitors -= 1;
                    }
                    self.monitor(place);
                },
            },
            DaemonAction::ReadClock => {
                self.action = DaemonAction::Accept;
                if let DaemonEvent::Clock(now) = event {
                    if now as u128 >= self.next_check {
                        self.action = DaemonAction::CheckOwnership;
                    }
                }
            },
            DaemonAction::CheckOwnership => match event {
                DaemonEvent::Failed(_) => self.stop(
                    Some(invalid_input("singleton daemon ownership lost")),
                ),
                _ => {
                    self.action = DaemonAction::ReadClockAgain;
                },
            },
            DaemonAction::ReadClockAgain => {
                if let DaemonEvent::Clock(now) = event {
                    self.next_check = now as u128 + self.check_interval.nanoseconds_in_all();
                }
                self.action = DaemonAction::Accept;
            },
            DaemonAction::Accept => match event {
                DaemonEvent::Done => {
                    self.action = DaemonAction::Admit;
                },
                DaemonEvent::Failed(fault) => {
                    if fault.kind == FaultKind::WouldBlock {
                        let short = Span::from_milliseconds(10);
                        let pause = if self.check_interval.shorter_than(&short) {
                            self.check_interval
                        } else {
                            short
                        };
                        self.action = DaemonAction::Sleep(pause);
                    } else {
                        self.action = DaemonAction::ReadShutdownFlag;
                    }
                },
                _ => {
                    self.action = DaemonAction::ReadShutdownFlag;
                },
            },
            DaemonAction::Admit => match event {
                DaemonEvent::Flag(true) => {
                    self.action = DaemonAction::Serve;
                },
                _ => {
                    self.action = DaemonAction::Reject;
                },
            },
            DaemonAction::Sleep(_) => {
                self.action = DaemonAction::ReadShutdownFlag;
            },
            DaemonAction::Serve => {
                self.action = DaemonAction::ReadShutdownFlag;
            },
            DaemonAction::Reject => {
                self.action = DaemonAction::ReadShutdownFlag;
            },
            DaemonAction::ShutDown(service) => match event {
                DaemonEvent::Failed(fault) => {
                    self.action = DaemonAction::Stop(Err(fault));
                },
                _ => self.shut_down_next(service),
            },
            DaemonAction::Stop(_) => {},
        }
        self.action
    }
}

/// Where the daemon is after events, one after the other.
pub open spec fn after_events(daemon: DaemonLoop, events: Seq<DaemonEvent>) -> DaemonLoop
    decreases events.len(),
{
    if events.len() == 0 {
        daemon
    } else {
        after_events(daemon, events.drop_last()).next(events.last())
    }
}

/// The services in the order in which they are shut down.
pub open spec fn services(daemon: DaemonLoop) -> Seq<DaemonService> {
    (if daemon.callback {
        seq![DaemonService::Callback]
    } else {
        Seq::empty()
    }) + seq![DaemonService::Maintenance, DaemonService::StaticSshHealth] + Seq::new(
        daemon.monitors as nat,
        |i: int| DaemonService::RecoveryMonitor(i as usize),
    )
}

/// A daemon that began to stop goes on with that whatever happens: it does nothing but shut
/// services down, and then it has stopped.
pub proof fn stopping_is_final(daemon: DaemonLoop, events: Seq<DaemonEvent>)
    requires
        daemon.action is ShutDown || daemon.action is Stop,
    ensures
        after_events(daemon, events).action is ShutDown || after_events(daemon, events).action
            is Stop,
    decreases events.len(),
{
    if events.len() > 0 {
        stopping_is_final(daemon, events.drop_last());
    }
}

/// While nothing fails, a daemon that stops shuts every service down exactly once, in order, and
/// only then ends with what it stopped for.
pub proof fn services_are_shut_down_in_order(
    daemon: DaemonLoop,
    ending: Option<Fault>,
    events: Seq<DaemonEvent>,
)
    requires
        forall|i: int| 0 <= i < events.len() ==> (#[trigger] events[i]) is Done,
        events.len() <= services(daemon).len(),
    ensures
        ({
            let reached = after_events(daemon.stopping(ending), events);
            &&& reached.ending == ending
            &&& reached.monitors == daemon.monitors
            &&& reached.action == if events.len() < services(daemon).len() {
                DaemonAction::ShutDown(services(daemon)[events.len() as int])
            } else {
                DaemonAction::Stop(
                    match ending {
                        Some(fault) => Err(fault),
                        None => Ok(()),
                    },
                )
            }
        }),
    decreases events.len(),
{
    let order = services(daemon);
    if events.len() == 0 {
        assert(order[0] == if daemon.callback {
            DaemonService::Callback
        } else {
            DaemonService::Maintenance
        });
    } else {
        let earlier = events.drop_last();
        assert(events.last() is Done);
        assert forall|i: int| 0 <= i < earlier.len() implies (#[trigger] earlier[i]) is Done by {
            assert(events[i] is Done);
        }
        services_are_shut_down_in_order(daemon, ending, earlier);
        let place = earlier.len() as int;
        let first: int = if daemon.callback {
            1
        } else {
            0
        };
        assert(order.len() == first + 2 + daemon.monitors);
        assert(order[first] == DaemonService::Maintenance);
        assert(order[first + 1] == DaemonService::StaticSshHealth);
        if place >= first + 2 {
            assert(order[place] == DaemonService::RecoveryMonitor((place - first - 2) as usize));
        }
        if place + 1 >= first + 2 && place + 1 < order.len() {
            assert(order[place + 1] == DaemonService::RecoveryMonitor(
                (place + 1 - first - 2) as usize,
            ));
        }
    }
}

/// A session is only served with a permit, and only for a connection that was accepted.
pub proof fn sessions_need_permits(daemon: DaemonLoop, event: DaemonEvent)
    requires
        daemon.next(event).action is Serve,
    ensures
        daemon.action is Admit,
        event == DaemonEvent::Flag(true),
{
}

/// A daemon that lost its ownership, or that was asked to stop, begins to stop at once.
pub proof fn lost_ownership_stops_the_daemon(daemon: DaemonLoop, fault: Fault)
    ensures
        daemon.action is CheckOwnership ==> daemon.next(DaemonEvent::Failed(fault))
            == daemon.stopping(Some(fault::input_fault("singleton daemon ownership lost"))),
        daemon.action is ReadShutdownFlag ==> daemon.next(DaemonEvent::Flag(true))
            == daemon.stopping(None),
{
}

} // verus!
