//! The failure that an operation on the outside world reports.

use vstd::prelude::*;

verus! {

/// The class of a failure.
#[derive(Clone, Copy, Debug, PartialEq, Eq, Structural)]
pub enum FaultKind {
    InvalidInput,
    InvalidData,
    PermissionDenied,
    NotFound,
    ConnectionRefused,
    ConnectionAborted,
    ConnectionReset,
    NotConnected,
    TimedOut,
    WouldBlock,
    UnexpectedEof,
    AddrInUse,
    AlreadyExists,
    BrokenPipe,
    Interrupted,
    Other,
}

/// A failure: its class and what is said of it.
#[derive(Clone, Copy, Debug)]
pub struct Fault {
    pub kind: FaultKind,
    pub message: &'static str,
}

/// A value handed in breaks a rule.
pub fn invalid_input(message: &'static str) -> (fault: Fault)
    ensures
        fault == (Fault { kind: FaultKind::InvalidInput, message }),
{
    Fault { kind: FaultKind::InvalidInput, message }
}

/// A value read from outside breaks a rule.
pub fn invalid_data(message: &'static str) -> (fault: Fault)
    ensures
        fault == (Fault { kind: FaultKind::InvalidData, message }),
{
    Fault { kind: FaultKind::InvalidData, message }
}

/// The fault of a value handed in that breaks a rule.
pub open spec fn input_fault(message: &'static str) -> Fault {
    Fault { kind: FaultKind::InvalidInput, message }
}

/// The fault of a value read from outside that breaks a rule.
pub open spec fn data_fault(message: &'static str) -> Fault {
    Fault { kind: FaultKind::InvalidData, message }
}

} // verus!
