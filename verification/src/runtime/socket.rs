//! The place of the daemon's socket: a private directory without a socket that is in use.

use crate::fault::{self, invalid_input, Fault, FaultKind};
use vstd::prelude::*;

verus! {

/// What is done about the place of the socket.
#[derive(Clone, Copy, Debug, PartialEq, Eq, Structural)]
pub enum SocketAction {
    CreateDirectory,
    /// Make the new directory private: only its owner may use it.
    ProtectDirectory { mode: u32 },
    InspectDirectory,
    InspectSocket,
    Connect,
    RemoveSocket,
}

/// What came of it.
#[derive(Clone, Copy, Debug)]
pub enum SocketReply {
    Done,
    Entry { directory: bool, socket: bool, mode: u32 },
    Failed(Fault),
}

/// What to do next about the place of the socket.
#[derive(Clone, Copy, Debug)]
pub enum SocketStep {
    Perform(SocketAction),
    Finish(Result<(), Fault>),
}

/// The entry is a directory that nobody but its owner may use.
pub open spec fn is_private(directory: bool, mode: u32) -> bool {
    directory && mode % 0o100 == 0
}

pub open spec fn refused(kind: FaultKind, message: &'static str) -> SocketStep {
    SocketStep::Finish(Err(Fault { kind, message }))
}

/// How the socket's own path is cleared: a socket that nobody serves is removed, and anything else
/// stays.
pub open spec fn clearing_step(place: int, history: Seq<SocketReply>) -> SocketStep {
    if history.len() <= place {
        SocketStep::Perform(SocketAction::InspectSocket)
    } else {
        match history[place] {
            SocketReply::Failed(fault) => if fault.kind == FaultKind::NotFound {
                SocketStep::Finish(Ok(()))
            } else {
                SocketStep::Finish(Err(fault))
            },
            SocketReply::Entry { socket, .. } => if !socket {
                refused(
                    FaultKind::AlreadyExists,
                    "daemon socket path exists and is not a socket",
                )
            } else if history.len() == place + 1 {
                SocketStep::Perform(SocketAction::Connect)
            } else {
                match history[place + 1] {
                    SocketReply::Failed(fault) => if fault.kind == FaultKind::ConnectionRefused
                        || fault.kind == FaultKind::NotFound {
                        if history.len() == place + 2 {
                            SocketStep::Perform(SocketAction::RemoveSocket)
                        } else {
                            match history[place + 2] {
                                SocketReply::Failed(fault) => SocketStep::Finish(Err(fault)),
                                _ => SocketStep::Finish(Ok(())),
                            }
                        }
                    } else {
                        SocketStep::Finish(Err(fault))
                    },
                    _ => refused(
                        FaultKind::AddrInUse,
                        "daemon socket is already accepting connections",
                    ),
                }
            },
            SocketReply::Done => refused(
                FaultKind::AlreadyExists,
                "daemon socket path exists and is not a socket",
            ),
        }
    }
}

/// How the place of a socket is prepared: its directory is made private, or has to be already.
pub open spec fn prepare_step(has_parent: bool, history: Seq<SocketReply>) -> SocketStep {
    if !has_parent {
        refused(FaultKind::InvalidInput, "daemon socket requires a parent directory")
    } else if history.len() == 0 {
        SocketStep::Perform(SocketAction::CreateDirectory)
    } else {
        match history[0] {
            SocketReply::Failed(fault) => if fault.kind != FaultKind::AlreadyExists {
                SocketStep::Finish(Err(fault))
            } else if history.len() == 1 {
                SocketStep::Perform(SocketAction::InspectDirectory)
            } else {
                match history[1] {
                    SocketReply::Entry { directory, mode, .. } => if is_private(directory, mode) {
                        clearing_step(2, history)
                    } else {
                        refused(
                            FaultKind::PermissionDenied,
                            "daemon runtime directory is not private",
                        )
                    },
                    SocketReply::Failed(fault) => SocketStep::Finish(Err(fault)),
                    SocketReply::Done => refused(
                        FaultKind::PermissionDenied,
                        "daemon runtime directory is not private",
                    ),
                }
            },
            _ => if history.len() == 1 {
                SocketStep::Perform(SocketAction::ProtectDirectory { mode: 0o700 })
            } else {
                match history[1] {
                    SocketReply::Failed(fault) => SocketStep::Finish(Err(fault)),
                    _ => clearing_step(2, history),
                }
            },
        }
    }
}

fn refuse(kind: FaultKind, message: &'static str) -> (step: SocketStep)
    ensures
        step == refused(kind, message),
{
    SocketStep::Finish(Err(Fault { kind, message }))
}

fn clear_socket_path(history: &Vec<SocketReply>) -> (step: SocketStep)
    ensures
        step == clearing_step(2, history@),
{
    if history.len() <= 2 {
        return SocketStep::Perform(SocketAction::InspectSocket);
    }
    match history[2] {
        SocketReply::Failed(fault) => {
            return if fault.kind == FaultKind::NotFound {
                SocketStep::Finish(Ok(()))
            } else {
                SocketStep::Finish(Err(fault))
            };
        },
        SocketReply::Entry { directory: _, socket, mode: _ } => {
            if !socket {
                return refuse(
                    FaultKind::AlreadyExists,
                    "daemon socket path exists and is not a socket",
                );
            }
        },
        SocketReply::Done => {
            return refuse(
                FaultKind::AlreadyExists,
                "daemon socket path exists and is not a socket",
            );
        },
    }
    if history.len() == 3 {
        return SocketStep::Perform(SocketAction::Connect);
    }
    match history[3] {
        SocketReply::Failed(fault) => {
            if fault.kind != FaultKind::ConnectionRefused && fault.kind != FaultKind::NotFound {
                return SocketStep::Finish(Err(fault));
            }
        },
        _ => {
            return refuse(
                FaultKind::AddrInUse,
                "daemon socket is already accepting connections",
            );
        },
    }
    if history.len() == 4 {
        return SocketStep::Perform(SocketAction::RemoveSocket);
    }
    match history[4] {
        SocketReply::Failed(fault) => SocketStep::Finish(Err(fault)),
        _ => SocketStep::Finish(Ok(())),
    }
}

/// Prepares the place of the daemon's socket.
pub fn prepare_socket_path(has_parent: bool, history: &Vec<SocketReply>) -> (step: SocketStep)
    ensures
        step == prepare_step(has_parent, history@),
{
    if !has_parent {
        return SocketStep::Finish(
            Err(invalid_input("daemon socket requires a parent directory")),
        );
    }
    if history.len() == 0 {
        return SocketStep::Perform(SocketAction::CreateDirectory);
    }
    match history[0] {
        SocketReply::Failed(fault) => {
            if fault.kind != FaultKind::AlreadyExists {
                return SocketStep::Finish(Err(fault));
            }
            if history.len() == 1 {
                return SocketStep::Perform(SocketAction::InspectDirectory);
            }
            match history[1] {
                SocketReply::Entry { directory, socket: _, mode } => {
                    if !directory || mode % 0o100 != 0 {
                        return refuse(
                            FaultKind::PermissionDenied,
                            "daemon runtime directory is not private",
                        );
                    }
                },
                SocketReply::Failed(fault) => {
                    return SocketStep::Finish(Err(fault));
                },
                SocketReply::Done => {
                    return refuse(
                        FaultKind::PermissionDenied,
                        "daemon runtime directory is not private",
                    );
                },
            }
        },
        _ => {
            if history.len() == 1 {
                return SocketStep::Perform(SocketAction::ProtectDirectory { mode: 0o700 });
            }
            if let SocketReply::Failed(fault) = history[1] {
                return SocketStep::Finish(Err(fault));
            }
        },
    }
    clear_socket_path(history)
}

/// Only a socket that refused a connection, or vanished, is ever removed.
pub proof fn only_dead_sockets_are_removed(has_parent: bool, history: Seq<SocketReply>)
    requires
        prepare_step(has_parent, history) == SocketStep::Perform(SocketAction::RemoveSocket),
    ensures
        history[2] matches SocketReply::Entry { socket, .. } && socket,
        history[3] matches SocketReply::Failed(fault) && (fault.kind == FaultKind::ConnectionRefused
            || fault.kind == FaultKind::NotFound),
{
}

/// The daemon only goes on in a directory that it made private itself or that was private.
pub proof fn directory_is_private(has_parent: bool, history: Seq<SocketReply>)
    requires
        prepare_step(has_parent, history) matches SocketStep::Finish(Ok(_)),
    ensures
        history[0] matches SocketReply::Failed(_) ==> history[1] matches SocketReply::Entry {
            directory,
            mode,
            ..
        } && is_private(directory, mode),
        !(history[0] is Failed) ==> !(history[1] is Failed),
{
}

} // verus!
