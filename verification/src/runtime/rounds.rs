//! The rounds of the daemon, and the ways up and down: what was done once they are through.

use crate::fault::Fault;
use crate::runtime::daemon::{DaemonAction, DaemonEvent, DaemonLoop, DaemonService};
use crate::runtime::session::{self, SessionAction, SessionStep};
use crate::runtime::socket::{self, SocketAction, SocketReply, SocketStep};
use crate::runtime::startup::{
    self, OnceAction, OnceStep, StartupAction, StartupReply, StartupSettings, StartupStep,
};
use vstd::prelude::*;

verus! {

/// While nothing is wrong, a round looks for a request to stop and for one to reload, reloads where
/// it is asked to, and checks health and maintenance.
pub proof fn round_begins_with_checks(daemon: DaemonLoop, reload: bool, reloaded: DaemonEvent)
    requires
        daemon.action is ReadShutdownFlag,
    ensures
        ({
            let asked = daemon.next(DaemonEvent::Flag(false));
            let taken = asked.next(DaemonEvent::Flag(reload));
            let checking = if reload {
                taken.next(reloaded)
            } else {
                taken
            };
            let maintained = checking.next(DaemonEvent::Done);
            &&& asked.action is TakeReloadFlag
            &&& reload ==> taken.action is Reload
            &&& checking.action is CheckHealth
            &&& maintained.action is CheckMaintenance
            &&& maintained == (DaemonLoop { action: maintained.action, ..daemon })
        }),
{
}

/// The daemon after every monitor from a place on was found running.
proof fn rest_of_monitors_is_checked(daemon: DaemonLoop, place: int, seen: nat)
    requires
        0 <= place <= daemon.monitors,
        seen <= daemon.monitors - place,
    ensures
        ({
            let events = Seq::new(seen, |i: int| DaemonEvent::Flag(true));
            let reached = crate::runtime::daemon::after_events(daemon.monitoring(place), events);
            reached == daemon.monitoring(place + seen)
        }),
    decreases seen,
{
    let events = Seq::new(seen, |i: int| DaemonEvent::Flag(true));
    if seen > 0 {
        rest_of_monitors_is_checked(daemon, place, (seen - 1) as nat);
        let earlier = Seq::new((seen - 1) as nat, |i: int| DaemonEvent::Flag(true));
        assert(events.drop_last() =~= earlier);
        assert(events.last() == DaemonEvent::Flag(true));
        let at = daemon.monitoring(place + seen - 1);
        assert(at.action == DaemonAction::CheckMonitor((place + seen - 1) as usize));
        assert(at.next(DaemonEvent::Flag(true)) == daemon.monitoring(place + seen));
    } else {
        assert(events =~= Seq::<DaemonEvent>::empty());
    }
}

/// Once maintenance was checked, every monitor is, one after the other, and then the clock is read.
pub proof fn every_monitor_is_checked(daemon: DaemonLoop, seen: nat)
    requires
        daemon.action is CheckMaintenance,
        seen <= daemon.monitors,
    ensures
        ({
            let events = Seq::new(seen, |i: int| DaemonEvent::Flag(true));
            let reached = crate::runtime::daemon::after_events(
                daemon.next(DaemonEvent::Done),
                events,
            );
            &&& reached.action == if seen < daemon.monitors {
                DaemonAction::CheckMonitor(seen as usize)
            } else {
                DaemonAction::ReadClock
            }
            &&& reached == (DaemonLoop { action: reached.action, ..daemon })
        }),
{
    rest_of_monitors_is_checked(daemon, 0, seen);
}

/// A monitor that no longer runs is taken away, and the one that comes to its place is checked
/// next.
pub proof fn ended_monitor_is_removed(daemon: DaemonLoop, place: usize)
    requires
        daemon.action == DaemonAction::CheckMonitor(place),
        place < daemon.monitors,
    ensures
        ({
            let removing = daemon.next(DaemonEvent::Flag(false));
            let removed = removing.next(DaemonEvent::Done);
            &&& removing.action == DaemonAction::RemoveMonitor(place)
            &&& removed.monitors == daemon.monitors - 1
            &&& removed.action == if place < removed.monitors {
                DaemonAction::CheckMonitor(place)
            } else {
                DaemonAction::ReadClock
            }
        }),
{
}

/// Ownership is checked when it is due, and is due again a whole interval after it was found to
/// hold. Before that it is not, and stays due when it was.
pub proof fn ownership_is_checked_when_due(daemon: DaemonLoop, now: u64, later: u64)
    requires
        daemon.action is ReadClock,
        later + daemon.check_interval.total() <= u128::MAX,
    ensures
        ({
            let read = daemon.next(DaemonEvent::Clock(now));
            let held = read.next(DaemonEvent::Done);
            let noted = held.next(DaemonEvent::Clock(later));
            if now >= daemon.next_check {
                &&& read.action is CheckOwnership
                &&& held.action is ReadClockAgain
                &&& noted.action is Accept
                &&& noted.next_check == later + daemon.check_interval.total()
            } else {
                read.action is Accept && read.next_check == daemon.next_check
            }
        }),
{
}

/// A connection that was accepted is served where a permit was to be had and else dropped, and then
/// the next round begins. Where there is none, the daemon sleeps for ten milliseconds, or for the
/// interval of its checks where that is shorter.
pub proof fn connections_are_served_or_dropped(
    daemon: DaemonLoop,
    permitted: bool,
    served: DaemonEvent,
    fault: Fault,
)
    requires
        daemon.action is Accept,
    ensures
        ({
            let admitting = daemon.next(DaemonEvent::Done);
            let decided = admitting.next(DaemonEvent::Flag(permitted));
            let waiting = daemon.next(DaemonEvent::Failed(fault));
            &&& admitting.action is Admit
            &&& if permitted {
                decided.action is Serve
            } else {
                decided.action is Reject
            }
            &&& decided.next(served).action is ReadShutdownFlag
            &&& if fault.kind is WouldBlock {
                &&& waiting.action matches DaemonAction::Sleep(pause)
                &&& pause.total() <= 10_000_000
                &&& pause.total() <= daemon.check_interval.total()
                &&& pause.total() == 10_000_000 || pause == daemon.check_interval
                &&& waiting.next(served).action is ReadShutdownFlag
            } else {
                waiting.action is ReadShutdownFlag
            }
        }),
{
}

/// Where a check fails the daemon stops with that failure, and where it is asked to stop, without
/// one: first what workers call back is shut down, where there is such a service, and else
/// maintenance.
pub proof fn failed_check_stops_the_daemon(daemon: DaemonLoop, fault: Fault)
    requires
        daemon.action is CheckHealth || daemon.action is CheckMaintenance || daemon.action
            is CheckMonitor || daemon.action is ReadShutdownFlag,
    ensures
        ({
            let stopped = if daemon.action is ReadShutdownFlag {
                daemon.next(DaemonEvent::Flag(true))
            } else {
                daemon.next(DaemonEvent::Failed(fault))
            };
            &&& stopped.action == DaemonAction::ShutDown(
                if daemon.callback {
                    DaemonService::Callback
                } else {
                    DaemonService::Maintenance
                },
            )
            &&& stopped.ending == (if daemon.action is ReadShutdownFlag {
                None
            } else {
                Some(fault)
            })
        }),
{
}

/// What was done on the way up, one thing after the other, each once what was before it went well.
pub open spec fn came_up(
    settings: StartupSettings,
    history: Seq<StartupReply>,
    done: Seq<StartupAction>,
) -> bool {
    &&& done.len() == history.len()
    &&& forall|i: int|
        0 <= i < history.len() ==> startup::following_step(
            startup::daemon_script(settings, history.take(i)),
            #[trigger] history.take(i),
        ) == StartupStep::Perform(done[i])
    &&& startup::following_step(startup::daemon_script(settings, history), history)
        == StartupStep::Started
}

/// The script does not change under what was done of it.
proof fn script_stays(settings: StartupSettings, history: Seq<StartupReply>, i: int)
    requires
        0 <= i < history.len(),
        i < startup::daemon_script(settings, history.take(i)).len(),
    ensures
        i < startup::daemon_script(settings, history).len(),
        startup::daemon_script(settings, history.take(i))[i] == startup::daemon_script(
            settings,
            history,
        )[i],
        i >= 11 ==> startup::daemon_script(settings, history.take(i)) == startup::daemon_script(
            settings,
            history,
        ),
{
    let begun = history.take(i);
    if i >= 11 {
        assert(begun[9] == history[9] && begun[10] == history[10]);
    } else if i == 10 {
        assert(begun[9] == history[9]);
    }
}

/// Something was done.
pub open spec fn was_done(done: Seq<StartupAction>, action: StartupAction) -> bool {
    exists|i: int| 0 <= i < done.len() && #[trigger] done[i] == action
}

proof fn all_of_the_script_was_done(
    settings: StartupSettings,
    history: Seq<StartupReply>,
    done: Seq<StartupAction>,
)
    requires
        came_up(settings, history, done),
    ensures
        done == startup::daemon_script(settings, history),
        forall|i: int| 0 <= i < history.len() ==> !(#[trigger] history[i] is Failed),
{
    let script = startup::daemon_script(settings, history);
    assert forall|i: int| 0 <= i < history.len() implies i < script.len() && #[trigger] done[i]
        == script[i] by {
        let begun = history.take(i);
        startup::startup_keeps_its_order(settings, begun, done[i]);
        script_stays(settings, history, i);
    }
    assert forall|i: int| 0 <= i < history.len() implies !(#[trigger] history[i] is Failed) by {
        if i < history.len() - 1 {
            let begun = history.take(history.len() - 1);
            startup::startup_keeps_its_order(settings, begun, done[history.len() - 1]);
            assert(begun[i] == history[i]);
        } else if history[i] is Failed {
            let begun = history.take(i);
            startup::startup_keeps_its_order(settings, begun, done[i]);
            assert forall|j: int| 0 <= j < i implies !(#[trigger] history[j] is Failed) by {
                assert(begun[j] == history[j]);
            }
            startup::failure_is_first(history, 0);
            assert(startup::first_failure(history, 0) == Some(i));
            assert(i < script.len());
        }
    }
    startup::failure_is_first(history, 0);
    assert(history.len() >= script.len());
    assert(done =~= script);
}

/// A daemon that came up has its database migrated and owned before its builds were read; has
/// reconciled the builds that it found, has a monitor on each that is to be watched, and has counted
/// its builds; has its scheduler and its health checks running; has the service that workers call
/// back running where there are such workers; has its socket bound and protected; and unless it
/// serves a single connection it is maintained, takes signals and listens without blocking.
pub proof fn daemon_that_came_up_is_complete(
    settings: StartupSettings,
    history: Seq<StartupReply>,
    done: Seq<StartupAction>,
    active: usize,
    watched: usize,
)
    requires
        came_up(settings, history, done),
        history.len() > 10,
        history[9] == StartupReply::Count(active),
        active > 0 ==> history[10] == StartupReply::Count(watched),
        active == 0 ==> watched == 0,
    ensures
        done[0] is LoadConfiguration,
        done[5] is Migrate,
        done[6] is AcquireOwnership,
        done[7] is ReconcileRetention,
        done[9] is ReadActiveBuilds,
        was_done(done, StartupAction::ReadTransferLimits),
        was_done(done, StartupAction::ReadDiskReserve),
        was_done(done, StartupAction::OpenGatewayStore),
        was_done(done, StartupAction::ConfigureBackends),
        active > 0 <==> done[10] is ReconcileBuilds,
        was_done(done, StartupAction::CountBuilds),
        was_done(done, StartupAction::StartScheduler),
        forall|i: int|
            0 <= i < watched ==> #[trigger] was_done(
                done,
                StartupAction::StartRecoveryMonitor(i as usize),
            ),
        was_done(done, StartupAction::StartStaticSshHealth),
        settings.callbacks ==> settings.endpoint && was_done(done, StartupAction::BindCallback)
            && was_done(done, StartupAction::StartCallback),
        settings.socket_fault is None && settings.uid_fault is None,
        was_done(done, StartupAction::PrepareSocket),
        was_done(done, StartupAction::BindSocket),
        was_done(done, StartupAction::ProtectSocket),
        !settings.once ==> was_done(done, StartupAction::StartMaintenance) && was_done(
            done,
            StartupAction::RegisterSignals,
        ) && was_done(done, StartupAction::ListenWithoutBlocking),
{
    all_of_the_script_was_done(settings, history, done);
    let opening = startup::opening();
    let recovery = startup::recovering(active, watched);
    let back = startup::calling_back(settings);
    let listening = startup::listening(settings);
    assert(startup::monitors(history) == watched);
    assert(done == opening + recovery + back + listening);
    assert(done[1] == StartupAction::ReadTransferLimits);
    assert(done[2] == StartupAction::ReadDiskReserve);
    assert(done[3] == StartupAction::OpenGatewayStore);
    assert(done[8] == StartupAction::ConfigureBackends);
    let first: int = if active > 0 {
        11
    } else {
        10
    };
    assert(done[first] == StartupAction::CountBuilds);
    assert(done[first + 1] == StartupAction::StartScheduler);
    assert forall|i: int| 0 <= i < watched implies #[trigger] was_done(
        done,
        StartupAction::StartRecoveryMonitor(i as usize),
    ) by {
        assert(done[first + 2 + i] == StartupAction::StartRecoveryMonitor(i as usize));
    }
    assert(done[first + 2 + watched] == StartupAction::StartStaticSshHealth);
    let called = first + 3 + watched;
    assert(recovery.len() == called - 10);
    let bound = called + back.len();
    assert(done[bound] == listening[0]);
    assert forall|i: int| 0 <= i < done.len() implies !(#[trigger] done[i] is Fail) by {
        assert(startup::following_step(
            startup::daemon_script(settings, history.take(i)),
            history.take(i),
        ) == StartupStep::Perform(done[i]));
    }
    if settings.callbacks {
        assert(done[called] == back[0]);
        assert(done[called + 1] == back[1]);
    }
    assert(done[bound + 1] == listening[1]);
    assert(done[bound + 2] == listening[2]);
    if !settings.once {
        assert(done[bound + 3] == listening[3]);
        assert(done[bound + 4] == listening[4]);
        assert(done[bound + 5] == listening[5]);
    }
}

/// Where something fails on the way up, nothing more is done.
pub proof fn failed_start_is_refused(
    settings: StartupSettings,
    history: Seq<StartupReply>,
    fault: Fault,
    action: StartupAction,
)
    requires
        startup::following_step(startup::daemon_script(settings, history), history)
            == StartupStep::Perform(action),
    ensures
        ({
            let failed = history.push(StartupReply::Failed(fault));
            startup::following_step(startup::daemon_script(settings, failed), failed)
                matches StartupStep::Refuse(reported) && (reported == fault || reported.kind
                is InvalidInput)
        }),
{
    let failed = history.push(StartupReply::Failed(fault));
    let place = history.len() as int;
    startup::startup_keeps_its_order(settings, history, action);
    assert(failed.take(place) =~= history);
    script_stays(settings, failed, place);
    assert forall|i: int| 0 <= i < place implies !(#[trigger] failed[i] is Failed) by {
        assert(failed[i] == history[i]);
    }
    assert(failed[place] is Failed);
    startup::failure_is_first(failed, 0);
    if startup::first_failure(failed, 0) is Some {
        let found = startup::first_failure(failed, 0)->0;
        assert(failed[found] is Failed);
    }
    assert(startup::first_failure(failed, 0) == Some(place));
}

/// A single connection is served first. Then, whatever came of it, the service that workers call
/// back is shut down, where there is one, and every monitor; and where all that went well, what came
/// of the connection is what is reported.
pub proof fn single_connection_is_wound_up(
    callbacks: bool,
    watched: usize,
    served: Result<(), Fault>,
    count: nat,
)
    requires
        count <= watched + (if callbacks {
            1int
        } else {
            0int
        }),
    ensures
        startup::once_step(callbacks, watched, Seq::empty()) == OnceStep::Perform(
            OnceAction::Serve,
        ),
        ({
            let first: int = if callbacks {
                1
            } else {
                0
            };
            let history = seq![served] + Seq::new(count, |i: int| Ok::<(), Fault>(()));
            startup::once_step(callbacks, watched, history) == if count < first {
                OnceStep::Perform(OnceAction::ShutDownCallback)
            } else if count < first + watched {
                OnceStep::Perform(OnceAction::ShutDownMonitor((count - first) as usize))
            } else {
                OnceStep::Finish(served)
            }
        }),
{
    let history = seq![served] + Seq::new(count, |i: int| Ok::<(), Fault>(()));
    nothing_failed(history, 1);
}

proof fn nothing_failed(history: Seq<Result<(), Fault>>, place: int)
    requires
        1 <= place,
        forall|i: int| 1 <= i < history.len() ==> #[trigger] history[i] is Ok,
    ensures
        startup::first_fault(history, place) is None,
    decreases history.len() - place,
{
    if place < history.len() {
        nothing_failed(history, place + 1);
    }
}

/// A session is recorded as open before it runs and as closed after, and what came of its run is
/// reported; only where it ran well and could not be closed is that reported instead. Where the
/// frontend reports an error, or the session cannot be recorded, it does not run.
pub proof fn session_takes_its_course(
    opened: Result<(), Fault>,
    ran: Result<(), Fault>,
    closed: Result<(), Fault>,
)
    ensures
        session::serve_step(false, Seq::empty()) == SessionStep::Perform(SessionAction::Open),
        opened is Err ==> (session::serve_step(false, seq![opened]) matches SessionStep::Finish(
            ended,
        ) && ended is Err),
        opened is Ok ==> session::serve_step(false, seq![opened]) == SessionStep::Perform(
            SessionAction::Run,
        ),
        opened is Ok ==> session::serve_step(false, seq![opened, ran]) == SessionStep::Perform(
            SessionAction::Close,
        ),
        opened is Ok ==> (session::serve_step(false, seq![opened, ran, closed])
            matches SessionStep::Finish(ended) && if ran is Ok && closed is Err {
            ended is Err
        } else {
            ended == ran
        }),
        session::serve_step(true, Seq::empty()) matches SessionStep::Finish(ended) && ended is Err,
{
}

/// A socket is prepared in a directory that is made for it and for its owner alone, or that is so
/// already; and where nothing is at its path, that is all.
pub proof fn socket_has_a_private_directory(
    directory: bool,
    mode: u32,
    missing: Fault,
    exists_already: Fault,
)
    requires
        missing.kind is NotFound,
        exists_already.kind is AlreadyExists,
    ensures
        socket::prepare_step(true, Seq::empty()) == SocketStep::Perform(
            SocketAction::CreateDirectory,
        ),
        socket::prepare_step(true, seq![SocketReply::Done]) == SocketStep::Perform(
            SocketAction::ProtectDirectory { mode: 0o700 },
        ),
        socket::prepare_step(true, seq![SocketReply::Done, SocketReply::Done])
            == SocketStep::Perform(SocketAction::InspectSocket),
        socket::prepare_step(
            true,
            seq![SocketReply::Done, SocketReply::Done, SocketReply::Failed(missing)],
        ) matches SocketStep::Finish(ended) && ended is Ok,
        socket::prepare_step(true, seq![SocketReply::Failed(exists_already)])
            == SocketStep::Perform(SocketAction::InspectDirectory),
        ({
            let step = socket::prepare_step(
                true,
                seq![
                    SocketReply::Failed(exists_already),
                    SocketReply::Entry { directory, socket: false, mode },
                ],
            );
            if directory && mode % 64 == 0 {
                step == SocketStep::Perform(SocketAction::InspectSocket)
            } else {
                step matches SocketStep::Finish(ended) && ended is Err
            }
        }),
{
}

/// What is at the path of a socket is removed where it is a socket that nobody serves, and else
/// stays and the daemon does not come up.
pub proof fn only_a_dead_socket_makes_way(
    directory: bool,
    is_socket: bool,
    mode: u32,
    answer: SocketReply,
)
    ensures
        ({
            let found = seq![
                SocketReply::Done,
                SocketReply::Done,
                SocketReply::Entry { directory, socket: is_socket, mode },
            ];
            let asked = found.push(answer);
            let dead = answer matches SocketReply::Failed(fault) && (fault.kind
                is ConnectionRefused || fault.kind is NotFound);
            if !is_socket {
                socket::prepare_step(true, found) matches SocketStep::Finish(ended) && ended is Err
            } else {
                &&& socket::prepare_step(true, found) == SocketStep::Perform(SocketAction::Connect)
                &&& if dead {
                    &&& socket::prepare_step(true, asked) == SocketStep::Perform(
                        SocketAction::RemoveSocket,
                    )
                    &&& socket::prepare_step(true, asked.push(SocketReply::Done))
                        matches SocketStep::Finish(ended) && ended is Ok
                } else {
                    socket::prepare_step(true, asked) matches SocketStep::Finish(ended) && ended
                        is Err
                }
            }
        }),
{
}

} // verus!
