//! What has to be set before a worker session can run.

use crate::fault::{self, invalid_input, Fault};
use crate::service::config::model::{BackendTarget, SchedulingLimits};
use crate::time::Span;
use vstd::prelude::*;

verus! {

/// Who a session is for, and where its state is kept.
#[derive(Clone, Debug)]
pub struct SessionIdentity {
    pub database_url: String,
    pub session_id: String,
    pub audit_subject: String,
    pub quota_subject: String,
}

/// For how long outputs are retained, and how many bytes of inputs.
#[derive(Clone, Copy, Debug, PartialEq, Eq, Structural)]
pub struct SessionRetention {
    pub output_retention: Span,
    pub maximum_retained_input_bytes: u64,
}

/// Gathers what a session needs. The stores, the executor, the admission of transfers and of
/// disk space and the shared builds are values that the session only passes on.
#[derive(Debug)]
pub struct SessionBuilder<Stores, Executor, Transfers, Disk, Builds> {
    pub backend_targets: Option<Vec<BackendTarget>>,
    pub running_disconnect_policy: Option<String>,
    pub retention: Option<SessionRetention>,
    pub stores: Option<Stores>,
    pub build_executor: Option<Executor>,
    pub identity: Option<SessionIdentity>,
    pub transfer_admission: Option<Transfers>,
    pub disk_admission: Option<Disk>,
    pub shared_builds: Option<(Builds, SchedulingLimits)>,
}

/// All that a session needs.
#[derive(Debug)]
pub struct SessionContext<Stores, Executor, Transfers, Disk, Builds> {
    pub backend_targets: Vec<BackendTarget>,
    pub running_disconnect_policy: String,
    pub retention: SessionRetention,
    pub stores: Stores,
    pub build_executor: Executor,
    pub identity: SessionIdentity,
    pub transfer_admission: Transfers,
    pub disk_admission: Disk,
    pub shared_builds: Builds,
    pub scheduling_limits: SchedulingLimits,
}

impl<Stores, Executor, Transfers, Disk, Builds> SessionBuilder<
    Stores,
    Executor,
    Transfers,
    Disk,
    Builds,
> {
    pub fn new() -> (builder: Self)
        ensures
            builder.backend_targets is None,
            builder.running_disconnect_policy is None,
            builder.retention is None,
            builder.stores is None,
            builder.build_executor is None,
            builder.identity is None,
            builder.transfer_admission is None,
            builder.disk_admission is None,
            builder.shared_builds is None,
    {
        SessionBuilder {
            backend_targets: None,
            running_disconnect_policy: None,
            retention: None,
            stores: None,
            build_executor: None,
            identity: None,
            transfer_admission: None,
            disk_admission: None,
            shared_builds: None,
        }
    }

    pub fn backend_targets(self, value: Vec<BackendTarget>) -> (builder: Self)
        ensures
            builder == (SessionBuilder { backend_targets: Some(value), ..self }),
    {
        SessionBuilder { backend_targets: Some(value), ..self }
    }

    pub fn disconnect_policy(self, value: String) -> (builder: Self)
        ensures
            builder == (SessionBuilder { running_disconnect_policy: Some(value), ..self }),
    {
        SessionBuilder { running_disconnect_policy: Some(value), ..self }
    }

    pub fn retention(self, output_retention: Span, maximum_retained_input_bytes: u64) -> (builder:
        Self)
        ensures
            builder == (SessionBuilder {
                retention: Some(SessionRetention { output_retention, maximum_retained_input_bytes }),
                ..self
            }),
    {
        SessionBuilder {
            retention: Some(SessionRetention { output_retention, maximum_retained_input_bytes }),
            ..self
        }
    }

    pub fn stores(self, value: Stores) -> (builder: Self)
        ensures
            builder == (SessionBuilder { stores: Some(value), ..self }),
    {
        SessionBuilder { stores: Some(value), ..self }
    }

    pub fn build_executor(self, value: Executor) -> (builder: Self)
        ensures
            builder == (SessionBuilder { build_executor: Some(value), ..self }),
    {
        SessionBuilder { build_executor: Some(value), ..self }
    }

    pub fn identity(self, value: SessionIdentity) -> (builder: Self)
        ensures
            builder == (SessionBuilder { identity: Some(value), ..self }),
    {
        SessionBuilder { identity: Some(value), ..self }
    }

    pub fn transfer_admission(self, value: Transfers) -> (builder: Self)
        ensures
            builder == (SessionBuilder { transfer_admission: Some(value), ..self }),
    {
        SessionBuilder { transfer_admission: Some(value), ..self }
    }

    pub fn disk_admission(self, value: Disk) -> (builder: Self)
        ensures
            builder == (SessionBuilder { disk_admission: Some(value), ..self }),
    {
        SessionBuilder { disk_admission: Some(value), ..self }
    }

    pub fn shared_builds(self, value: Builds, limits: SchedulingLimits) -> (builder: Self)
        ensures
            builder == (SessionBuilder { shared_builds: Some((value, limits)), ..self }),
    {
        SessionBuilder { shared_builds: Some((value, limits)), ..self }
    }

    /// Everything has been set.
    pub open spec fn complete(self) -> bool {
        &&& self.backend_targets is Some
        &&& self.running_disconnect_policy is Some
        &&& self.retention is Some
        &&& self.stores is Some
        &&& self.build_executor is Some
        &&& self.identity is Some
        &&& self.transfer_admission is Some
        &&& self.disk_admission is Some
        &&& self.shared_builds is Some
    }

    /// Hands out what was gathered once everything has been set.
    pub fn build(self) -> (context: Result<
        SessionContext<Stores, Executor, Transfers, Disk, Builds>,
        Fault,
    >)
        ensures
            self.complete() ==> context == Ok::<
                SessionContext<Stores, Executor, Transfers, Disk, Builds>,
                Fault,
            >(
                SessionContext {
                    backend_targets: self.backend_targets->0,
                    running_disconnect_policy: self.running_disconnect_policy->0,
                    retention: self.retention->0,
                    stores: self.stores->0,
                    build_executor: self.build_executor->0,
                    identity: self.identity->0,
                    transfer_admission: self.transfer_admission->0,
                    disk_admission: self.disk_admission->0,
                    shared_builds: (self.shared_builds->0).0,
                    scheduling_limits: (self.shared_builds->0).1,
                },
            ),
            !self.complete() ==> context == Err::<
                SessionContext<Stores, Executor, Transfers, Disk, Builds>,
                Fault,
            >(fault::input_fault("worker session is not fully configured")),
    {
        match (
            self.backend_targets,
            self.running_disconnect_policy,
            self.retention,
            self.stores,
            self.build_executor,
            self.identity,
            self.transfer_admission,
            self.disk_admission,
            self.shared_builds,
        ) {
            (
                Some(backend_targets),
                Some(running_disconnect_policy),
                Some(retention),
                Some(stores),
                Some(build_executor),
                Some(identity),
                Some(transfer_admission),
                Some(disk_admission),
                Some((shared_builds, scheduling_limits)),
            ) => Ok(
                SessionContext {
                    backend_targets,
                    running_disconnect_policy,
                    retention,
                    stores,
                    build_executor,
                    identity,
                    transfer_admission,
                    disk_admission,
                    shared_builds,
                    scheduling_limits,
                },
            ),
            _ => Err(invalid_input("worker session is not fully configured")),
        }
    }
}

} // verus!
