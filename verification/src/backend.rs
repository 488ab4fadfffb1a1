//! What backends can do.

use crate::service::config::model::BackendKind;
use crate::text;
use vstd::prelude::*;

verus! {

impl BackendKind {
    pub open spec fn spec_name(self) -> &'static str {
        match self {
            BackendKind::Local => "local",
            BackendKind::StaticSsh => "static-ssh",
            BackendKind::Nomad => "nomad",
        }
    }

    pub fn as_str(self) -> (name: &'static str)
        ensures
            name == self.spec_name(),
    {
        match self {
            BackendKind::Local => "local",
            BackendKind::StaticSsh => "static-ssh",
            BackendKind::Nomad => "nomad",
        }
    }

    pub open spec fn named(name: Seq<char>) -> Option<Self> {
        if name == "local"@ {
            Some(BackendKind::Local)
        } else if name == "static-ssh"@ {
            Some(BackendKind::StaticSsh)
        } else if name == "nomad"@ {
            Some(BackendKind::Nomad)
        } else {
            None
        }
    }

    pub fn parse(name: &str) -> (found: Option<Self>)
        ensures
            found == Self::named(name@),
    {
        if text::same_text(name, "local") {
            Some(BackendKind::Local)
        } else if text::same_text(name, "static-ssh") {
            Some(BackendKind::StaticSsh)
        } else if text::same_text(name, "nomad") {
            Some(BackendKind::Nomad)
        } else {
            None
        }
    }
}

/// What is left of an execution when the service starts anew.
#[derive(Clone, Copy, Debug, PartialEq, Eq, Structural)]
pub enum ExecutionRecovery {
    OutputOnly,
    Adoptable,
}

impl ExecutionRecovery {
    pub open spec fn spec_name(self) -> &'static str {
        match self {
            ExecutionRecovery::OutputOnly => "output-only",
            ExecutionRecovery::Adoptable => "adoptable",
        }
    }

    pub fn as_str(self) -> (name: &'static str)
        ensures
            name == self.spec_name(),
    {
        match self {
            ExecutionRecovery::OutputOnly => "output-only",
            ExecutionRecovery::Adoptable => "adoptable",
        }
    }

    pub open spec fn named(name: Seq<char>) -> Option<Self> {
        if name == "output-only"@ {
            Some(ExecutionRecovery::OutputOnly)
        } else if name == "adoptable"@ {
            Some(ExecutionRecovery::Adoptable)
        } else {
            None
        }
    }

    pub fn parse(name: &str) -> (found: Option<Self>)
        ensures
            found == Self::named(name@),
    {
        if text::same_text(name, "output-only") {
            Some(ExecutionRecovery::OutputOnly)
        } else if text::same_text(name, "adoptable") {
            Some(ExecutionRecovery::Adoptable)
        } else {
            None
        }
    }
}

/// How an execution is cancelled.
#[derive(Clone, Copy, Debug, PartialEq, Eq, Structural)]
pub enum CancellationCapability {
    ConnectionBound,
    Explicit,
}

impl CancellationCapability {
    pub open spec fn spec_name(self) -> &'static str {
        match self {
            CancellationCapability::ConnectionBound => "connection-bound",
            CancellationCapability::Explicit => "explicit",
        }
    }

    pub fn as_str(self) -> (name: &'static str)
        ensures
            name == self.spec_name(),
    {
        match self {
            CancellationCapability::ConnectionBound => "connection-bound",
            CancellationCapability::Explicit => "explicit",
        }
    }

    pub open spec fn named(name: Seq<char>) -> Option<Self> {
        if name == "connection-bound"@ {
            Some(CancellationCapability::ConnectionBound)
        } else if name == "explicit"@ {
            Some(CancellationCapability::Explicit)
        } else {
            None
        }
    }

    pub fn parse(name: &str) -> (found: Option<Self>)
        ensures
            found == Self::named(name@),
    {
        if text::same_text(name, "connection-bound") {
            Some(CancellationCapability::ConnectionBound)
        } else if text::same_text(name, "explicit") {
            Some(CancellationCapability::Explicit)
        } else {
            None
        }
    }
}

/// What is left of the log of an execution when the service starts anew.
#[derive(Clone, Copy, Debug, PartialEq, Eq, Structural)]
pub enum LogRecovery {
    LiveOnly,
    Replayable,
}

impl LogRecovery {
    pub open spec fn spec_name(self) -> &'static str {
        match self {
            LogRecovery::LiveOnly => "live-only",
            LogRecovery::Replayable => "replayable",
        }
    }

    pub fn as_str(self) -> (name: &'static str)
        ensures
            name == self.spec_name(),
    {
        match self {
            LogRecovery::LiveOnly => "live-only",
            LogRecovery::Replayable => "replayable",
        }
    }

    pub open spec fn named(name: Seq<char>) -> Option<Self> {
        if name == "live-only"@ {
            Some(LogRecovery::LiveOnly)
        } else if name == "replayable"@ {
            Some(LogRecovery::Replayable)
        } else {
            None
        }
    }

    pub fn parse(name: &str) -> (found: Option<Self>)
        ensures
            found == Self::named(name@),
    {
        if text::same_text(name, "live-only") {
            Some(LogRecovery::LiveOnly)
        } else if text::same_text(name, "replayable") {
            Some(LogRecovery::Replayable)
        } else {
            None
        }
    }
}

/// What a backend can do.
#[derive(Clone, Copy, Debug, PartialEq, Eq, Structural)]
pub struct BackendCapabilities {
    pub execution_recovery: ExecutionRecovery,
    pub cancellation: CancellationCapability,
    pub log_recovery: LogRecovery,
}

impl BackendCapabilities {
    pub fn new(
        execution_recovery: ExecutionRecovery,
        cancellation: CancellationCapability,
        log_recovery: LogRecovery,
    ) -> (capabilities: Self)
        ensures
            capabilities == (BackendCapabilities { execution_recovery, cancellation, log_recovery }),
    {
        BackendCapabilities { execution_recovery, cancellation, log_recovery }
    }

    pub fn execution_recovery(&self) -> (execution_recovery: ExecutionRecovery)
        ensures
            execution_recovery == self.execution_recovery,
    {
        self.execution_recovery
    }

    pub fn cancellation(&self) -> (cancellation: CancellationCapability)
        ensures
            cancellation == self.cancellation,
    {
        self.cancellation
    }

    pub fn log_recovery(&self) -> (log_recovery: LogRecovery)
        ensures
            log_recovery == self.log_recovery,
    {
        self.log_recovery
    }
}

/// What each kind of backend can do.
#[derive(Clone, Copy, Debug, PartialEq, Eq, Structural)]
pub struct CapabilityTable {
    pub local: BackendCapabilities,
    pub static_ssh: BackendCapabilities,
    pub nomad: BackendCapabilities,
}

impl CapabilityTable {
    pub open spec fn of_kind(self, kind: BackendKind) -> BackendCapabilities {
        match kind {
            BackendKind::Local => self.local,
            BackendKind::StaticSsh => self.static_ssh,
            BackendKind::Nomad => self.nomad,
        }
    }

    pub fn capabilities(&self, kind: BackendKind) -> (capabilities: BackendCapabilities)
        ensures
            capabilities == self.of_kind(kind),
    {
        match kind {
            BackendKind::Local => self.local,
            BackendKind::StaticSsh => self.static_ssh,
            BackendKind::Nomad => self.nomad,
        }
    }
}

/// What a name stands for is what has that name.
pub proof fn backend_names_are_distinct(
    kind: BackendKind,
    execution_recovery: ExecutionRecovery,
    cancellation: CancellationCapability,
    log_recovery: LogRecovery,
)
    ensures
        BackendKind::named(kind.spec_name()@) == Some(kind),
        ExecutionRecovery::named(execution_recovery.spec_name()@) == Some(execution_recovery),
        CancellationCapability::named(cancellation.spec_name()@) == Some(cancellation),
        LogRecovery::named(log_recovery.spec_name()@) == Some(log_recovery),
{
    reveal_strlit("local");
    reveal_strlit("static-ssh");
    reveal_strlit("nomad");
    reveal_strlit("output-only");
    reveal_strlit("adoptable");
    reveal_strlit("connection-bound");
    reveal_strlit("explicit");
    reveal_strlit("live-only");
    reveal_strlit("replayable");
    assert("local"@[0] != "nomad"@[0]);
    assert("static-ssh"@.len() == 10);
    assert("output-only"@.len() != "adoptable"@.len());
    assert("connection-bound"@.len() != "explicit"@.len());
    assert("live-only"@.len() != "replayable"@.len());
}

} // verus!
