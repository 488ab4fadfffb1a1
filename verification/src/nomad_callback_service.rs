//! What the gateway decides while it serves a Nomad worker: who may connect, which inputs are
//! sent, and when an output counts as collected.

use crate::bytes;
use crate::crypto;
use crate::fault::{self, invalid_data, Fault, FaultKind};
use crate::metadata;
use crate::nomad_transfer_authentication::{Authentication, HmacVerificationPolicy};
use crate::nomad_transfer_protocol::{
    self, read_frame, write_frame, Direction, Frame, FrameKind, Phase, ProtocolLimits,
    ProtocolSession,
};
use crate::permits::Permits;
use crate::service::config::model::{
    NomadBackendConfig, NomadCallbackConfig, NomadTransferAuthentication,
};
use crate::text;
use crate::time::Span;
use vstd::prelude::*;
use vstd::utf8::*;

verus! {

/// The fault of the gateway's own doing.
pub open spec fn other_fault(message: &'static str) -> Fault {
    Fault { kind: FaultKind::Other, message }
}

fn other(message: &'static str) -> (fault: Fault)
    ensures
        fault == other_fault(message),
{
    Fault { kind: FaultKind::Other, message }
}

/// A store path that a transfer speaks of.
#[derive(Clone, Debug)]
pub struct PathManifestEntry {
    pub path: String,
    pub nar_hash: String,
    pub nar_size: u64,
    pub references: Vec<String>,
    pub deriver: Option<String>,
}

/// What a chunk of a NAR says of itself.
#[derive(Clone, Debug)]
pub struct NarMetadata {
    pub path: String,
    pub nar_hash: String,
    pub nar_size: u64,
    pub offset: u64,
    pub final_chunk: bool,
}

/// What the gateway says of an output that it has taken in.
#[derive(Clone, Debug)]
pub struct OutputReceipt {
    pub path: String,
    pub accepted: bool,
}

#[derive(Clone, Copy, Debug, PartialEq, Eq, Structural)]
pub enum BuildOutcome {
    Built,
    Failed,
}

/// What the worker says of the build at its end.
#[derive(Clone, Debug)]
pub struct BuildResultMetadata {
    pub outcome: BuildOutcome,
    pub diagnostic: Option<String>,
}

/// The paths that a worker asks for.
#[derive(Clone, Debug)]
pub struct PathSet {
    pub paths: Vec<String>,
}

/// What of a build request the transfer reads.
#[derive(Clone, Debug)]
pub struct BuildInputs {
    pub derivation_path: Vec<u8>,
    pub input_sources: Vec<Vec<u8>>,
    pub expected_outputs: Vec<(Vec<u8>, Vec<u8>)>,
}

/// What a worker needs before it can build.
#[derive(Clone, Debug)]
pub struct InputManifest {
    pub derivation_path: String,
    pub paths: Vec<PathManifestEntry>,
    pub outputs: Vec<String>,
}

/// The frame that fills a message, or why there is none.
pub open spec fn whole_frame(body: Seq<u8>, limits: ProtocolLimits) -> Result<
    nomad_transfer_protocol::FrameContent,
    Fault,
> {
    match nomad_transfer_protocol::decoded_frame(body, limits) {
        Err(refusal) => Err(refusal),
        Ok((content, consumed)) => if consumed != body.len() {
            Err(fault::data_fault("Nomad transfer message contains trailing bytes"))
        } else {
            Ok(content)
        },
    }
}

/// Reads the frame of a message, which has nothing after it.
pub fn read_transfer_frame(body: &[u8], limits: ProtocolLimits) -> (read: Result<Frame, Fault>)
    ensures
        match whole_frame(body@, limits) {
            Ok(content) => read is Ok && read->Ok_0@ == content,
            Err(refusal) => read == Err::<Frame, Fault>(refusal),
        },
{
    match read_frame(body, limits) {
        Err(refusal) => Err(refusal),
        Ok((frame, consumed)) => {
            if consumed != body.len() {
                return Err(invalid_data("Nomad transfer message contains trailing bytes"));
            }
            Ok(frame)
        },
    }
}

/// Writes the message of a frame.
pub fn write_transfer_frame(
    frame: &Frame,
    maximum_metadata_bytes: usize,
    maximum_payload_bytes: usize,
) -> (message: Result<Vec<u8>, Fault>)
    ensures
        match message {
            Ok(bytes) => {
                &&& bytes@ == nomad_transfer_protocol::frame_bytes(frame@)
                &&& frame@.metadata.len() <= maximum_metadata_bytes
                &&& frame@.payload.len() <= maximum_payload_bytes
                &&& frame@.metadata.len() <= u32::MAX && frame@.payload.len() <= u32::MAX
            },
            Err(refusal) => {
                &&& refusal.kind == FaultKind::InvalidInput
                &&& refusal.message == (if frame@.metadata.len() > maximum_metadata_bytes || (
                frame@.payload.len() <= maximum_payload_bytes && frame@.metadata.len() > u32::MAX) {
                    "Nomad transfer frame metadata exceeds limit"
                } else {
                    "Nomad transfer frame payload exceeds limit"
                })
                &&& frame@.metadata.len() > maximum_metadata_bytes || frame@.payload.len()
                    > maximum_payload_bytes || frame@.metadata.len() > u32::MAX
                    || frame@.payload.len() > u32::MAX
            },
        },
{
    let mut message: Vec<u8> = Vec::new();
    let limits = ProtocolLimits::new(maximum_metadata_bytes, maximum_payload_bytes);
    match write_frame(&mut message, frame, limits) {
        Ok(()) => {
            assert(message@ =~= nomad_transfer_protocol::frame_bytes(frame@));
            Ok(message)
        },
        Err(refusal) => Err(refusal),
    }
}

/// A message that the gateway writes is one that it would read.
pub proof fn written_message_is_read_back(
    content: nomad_transfer_protocol::FrameContent,
    limits: ProtocolLimits,
)
    requires
        nomad_transfer_protocol::write_fault(content, limits) is None,
    ensures
        whole_frame(nomad_transfer_protocol::frame_bytes(content), limits) == Ok::<
            nomad_transfer_protocol::FrameContent,
            Fault,
        >(content),
{
    let bytes = nomad_transfer_protocol::frame_bytes(content);
    nomad_transfer_protocol::written_frame_is_read_back(content, Seq::<u8>::empty(), limits);
    assert(bytes + Seq::<u8>::empty() =~= bytes);
}

/// The connection is used before its time is over; both moments count in the same unit.
pub fn ensure_before(now: u128, deadline: u128) -> (checked: Result<(), Fault>)
    ensures
        now < deadline ==> checked is Ok,
        now >= deadline ==> checked == Err::<(), Fault>(
            Fault { kind: FaultKind::TimedOut, message: "Nomad connection lifetime exceeded" },
        ),
{
    if now >= deadline {
        return Err(
            Fault { kind: FaultKind::TimedOut, message: "Nomad connection lifetime exceeded" },
        );
    }
    Ok(())
}

/// An output that is being taken in, and how much of its NAR has come.
#[derive(Debug)]
pub struct OutputImport {
    pub metadata: PathManifestEntry,
    pub received: u64,
}

/// Why a chunk is not the next one of an output.
pub open spec fn chunk_fault(
    import: OutputImport,
    metadata: NarMetadata,
    payload_length: int,
) -> Option<Fault> {
    if metadata.path@ != import.metadata.path@ || metadata.nar_hash@ != import.metadata.nar_hash@
        || metadata.nar_size != import.metadata.nar_size || metadata.offset != import.received
        || payload_length == 0 {
        Some(fault::data_fault("Nomad output NAR chunk is inconsistent"))
    } else if import.received + payload_length > u64::MAX {
        Some(fault::data_fault("Nomad output too large"))
    } else {
        None
    }
}

impl OutputImport {
    pub fn new(metadata: PathManifestEntry) -> (import: Self)
        ensures
            import.metadata == metadata,
            import.received == 0,
    {
        OutputImport { metadata, received: 0 }
    }

    /// Checks a chunk, and says how much of the NAR has come with it.
    pub fn receive(&self, metadata: &NarMetadata, payload_length: usize) -> (received: Result<
        u64,
        Fault,
    >)
        ensures
            match chunk_fault(*self, *metadata, payload_length as int) {
                Some(refusal) => received == Err::<u64, Fault>(refusal),
                None => received == Ok::<u64, Fault>((self.received + payload_length) as u64),
            },
    {
        if metadata.path != self.metadata.path || metadata.nar_hash != self.metadata.nar_hash
            || metadata.nar_size != self.metadata.nar_size || metadata.offset != self.received
            || payload_length == 0 {
            return Err(invalid_data("Nomad output NAR chunk is inconsistent"));
        }
        match self.received.checked_add(payload_length as u64) {
            Some(received) => Ok(received),
            None => Err(invalid_data("Nomad output too large")),
        }
    }
}

/// How the build ended, seen from the gateway.
#[derive(Debug)]
pub enum BuildCollectionOutcome {
    Built,
    Failed { diagnostic: Option<String> },
}

/// What the collection of outputs waits for.
#[derive(Clone, Copy, Debug, PartialEq, Eq, Structural)]
pub enum Pending {
    Frame,
    Collected,
    OutputMetadata,
    OutputNar,
    Import,
    BuildResult,
    Verification,
    Finished,
}

/// What has happened outside.
#[derive(Debug)]
pub enum CollectionEvent {
    /// A frame has been read.
    Frame(FrameKind),
    /// The shared build has been marked as collecting, or that failed.
    Collected(bool),
    /// The metadata of an output has been read.
    OutputMetadata(Result<PathManifestEntry, Fault>),
    /// The metadata of a chunk has been read; its payload has this length.
    OutputNar(Result<NarMetadata, Fault>, usize),
    /// The output has been added to the store: whether the store then holds it.
    Imported(Result<bool, Fault>),
    /// The metadata of the result has been read.
    BuildResult(Result<BuildResultMetadata, Fault>),
    /// Whether the store holds each expected output, up to the first that it does not.
    Verified(Result<bool, Fault>),
}

/// What has to be done outside.
#[derive(Debug)]
pub enum CollectionAction {
    ReadFrame,
    MarkCollecting,
    ReadOutputMetadata,
    ReadOutputNar,
    /// Keep the payload, and read the next frame.
    KeepPayload,
    /// Keep the payload, which was the last, and add the output to the store.
    ImportOutput,
    SendReceipt(OutputReceipt),
    ReadBuildResult,
    VerifyOutputs,
    Finish(BuildCollectionOutcome),
}

/// The state of a collection.
pub struct Collecting {
    pub phase: Phase,
    pub collecting: bool,
    pub current: Option<OutputImport>,
    pub pending: Pending,
}

/// The collection of the outputs of one build.
#[derive(Debug)]
pub struct OutputCollection {
    session: ProtocolSession,
    collecting: bool,
    current: Option<OutputImport>,
    pending: Pending,
}

impl View for OutputCollection {
    type V = Collecting;

    closed spec fn view(&self) -> Collecting {
        Collecting {
            phase: self.session@,
            collecting: self.collecting,
            current: self.current,
            pending: self.pending,
        }
    }
}

pub open spec fn out_of_phase() -> Fault {
    fault::data_fault("Nomad transfer frame is invalid for protocol phase")
}

pub open spec fn out_of_order() -> Fault {
    other_fault("Nomad output collection event is out of order")
}

/// The step that a frame of some kind leads to.
pub open spec fn frame_step(before: Collecting, kind: FrameKind) -> Result<
    (Collecting, CollectionAction),
    Fault,
> {
    match kind {
        FrameKind::BuildStarted | FrameKind::LogChunk => match nomad_transfer_protocol::next_phase(
            before.phase,
            Direction::WorkerToGateway,
            kind,
        ) {
            Some(phase) => Ok((Collecting { phase, ..before }, CollectionAction::ReadFrame)),
            None => Err(out_of_phase()),
        },
        FrameKind::OutputMetadata => if before.current is Some {
            Err(fault::data_fault("Nomad output NAR transfer is interleaved"))
        } else if !before.collecting {
            Ok(
                (
                    Collecting { pending: Pending::Collected, ..before },
                    CollectionAction::MarkCollecting,
                ),
            )
        } else {
            Ok(
                (
                    Collecting { pending: Pending::OutputMetadata, ..before },
                    CollectionAction::ReadOutputMetadata,
                ),
            )
        },
        FrameKind::OutputNar => Ok(
            (
                Collecting { pending: Pending::OutputNar, ..before },
                CollectionAction::ReadOutputNar,
            ),
        ),
        FrameKind::BuildResult => if before.current is Some {
            Err(fault::data_fault("Nomad build completed during output transfer"))
        } else {
            Ok(
                (
                    Collecting { pending: Pending::BuildResult, ..before },
                    CollectionAction::ReadBuildResult,
                ),
            )
        },
        _ => Err(
            fault::data_fault("Nomad transfer frame is invalid during build output collection"),
        ),
    }
}

/// The step that a chunk leads to.
pub open spec fn chunk_step(
    before: Collecting,
    metadata: NarMetadata,
    payload_length: int,
) -> Result<(Collecting, bool), Fault> {
    match before.current {
        None => Err(fault::data_fault("Nomad output NAR has no metadata")),
        Some(import) => match chunk_fault(import, metadata, payload_length) {
            Some(refusal) => Err(refusal),
            None => match nomad_transfer_protocol::next_phase(
                before.phase,
                Direction::WorkerToGateway,
                FrameKind::OutputNar,
            ) {
                None => Err(out_of_phase()),
                Some(phase) => {
                    let received = (import.received + payload_length) as u64;
                    let current = Some(OutputImport { metadata: import.metadata, received });
                    if !metadata.final_chunk {
                        Ok(
                            (
                                Collecting { phase, current, pending: Pending::Frame, ..before },
                                false,
                            ),
                        )
                    } else if received != import.metadata.nar_size {
                        Err(fault::data_fault("Nomad output NAR length is inconsistent"))
                    } else {
                        Ok(
                            (
                                Collecting { phase, current, pending: Pending::Import, ..before },
                                true,
                            ),
                        )
                    }
                },
            },
        },
    }
}

impl OutputCollection {
    /// Starts a collection in a session whose inputs have been sent.
    pub fn new(session: ProtocolSession) -> (collection: Self)
        ensures
            collection@ == (Collecting {
                phase: session@,
                collecting: false,
                current: None,
                pending: Pending::Frame,
            }),
    {
        OutputCollection { session, collecting: false, current: None, pending: Pending::Frame }
    }

    /// The output that is being taken in.
    pub fn current(&self) -> (current: Option<&OutputImport>)
        ensures
            match current {
                Some(import) => self@.current == Some(*import),
                None => self@.current is None,
            },
    {
        match &self.current {
            Some(import) => Some(import),
            None => None,
        }
    }

    fn on_frame(&mut self, kind: FrameKind) -> (action: Result<CollectionAction, Fault>)
        requires
            old(self)@.pending == Pending::Frame,
        ensures
            match frame_step(old(self)@, kind) {
                Ok((after, expected)) => final(self)@ == after && action == Ok::<
                    CollectionAction,
                    Fault,
                >(expected),
                Err(refusal) => final(self)@ == old(self)@ && action == Err::<
                    CollectionAction,
                    Fault,
                >(refusal),
            },
    {
        match kind {
            FrameKind::BuildStarted | FrameKind::LogChunk => {
                match self.session.accept(Direction::WorkerToGateway, kind) {
                    Ok(()) => Ok(CollectionAction::ReadFrame),
                    Err(refusal) => Err(refusal),
                }
            },
            FrameKind::OutputMetadata => {
                if self.current.is_some() {
                    return Err(invalid_data("Nomad output NAR transfer is interleaved"));
                }
                if !self.collecting {
                    self.pending = Pending::Collected;
                    return Ok(CollectionAction::MarkCollecting);
                }
                self.pending = Pending::OutputMetadata;
                Ok(CollectionAction::ReadOutputMetadata)
            },
            FrameKind::OutputNar => {
                self.pending = Pending::OutputNar;
                Ok(CollectionAction::ReadOutputNar)
            },
            FrameKind::BuildResult => {
                if self.current.is_some() {
                    return Err(invalid_data("Nomad build completed during output transfer"));
                }
                self.pending = Pending::BuildResult;
                Ok(CollectionAction::ReadBuildResult)
            },
            _ => Err(
                invalid_data("Nomad transfer frame is invalid during build output collection"),
            ),
        }
    }

    fn on_chunk(&mut self, metadata: &NarMetadata, payload_length: usize) -> (last: Result<
        bool,
        Fault,
    >)
        ensures
            match chunk_step(old(self)@, *metadata, payload_length as int) {
                Ok((after, expected)) => final(self)@ == after && last == Ok::<bool, Fault>(
                    expected,
                ),
                Err(refusal) => final(self)@ == old(self)@ && last == Err::<bool, Fault>(refusal),
            },
    {
        let import = match self.current.take() {
            Some(import) => import,
            None => {
                return Err(invalid_data("Nomad output NAR has no metadata"));
            },
        };
        let received = match import.receive(metadata, payload_length) {
            Ok(received) => received,
            Err(refusal) => {
                self.current = Some(import);
                return Err(refusal);
            },
        };
        let mut session = self.session;
        if let Err(refusal) = session.accept(Direction::WorkerToGateway, FrameKind::OutputNar) {
            self.current = Some(import);
            return Err(refusal);
        }
        if metadata.final_chunk && received != import.metadata.nar_size {
            self.current = Some(import);
            return Err(invalid_data("Nomad output NAR length is inconsistent"));
        }
        self.session = session;
        self.current = Some(OutputImport { metadata: import.metadata, received });
        self.pending = if metadata.final_chunk {
            Pending::Import
        } else {
            Pending::Frame
        };
        Ok(metadata.final_chunk)
    }
}

/// The step that an event leads to; the event has to be the one that is waited for.
pub open spec fn collection_step(before: Collecting, event: CollectionEvent) -> Result<
    (Collecting, CollectionAction),
    Fault,
> {
    match (before.pending, event) {
        (Pending::Frame, CollectionEvent::Frame(kind)) => frame_step(before, kind),
        (Pending::Collected, CollectionEvent::Collected(true)) => Ok(
            (
                Collecting { collecting: true, pending: Pending::OutputMetadata, ..before },
                CollectionAction::ReadOutputMetadata,
            ),
        ),
        (Pending::Collected, CollectionEvent::Collected(false)) => Err(
            other_fault("Nomad output collection transition failed"),
        ),
        (Pending::OutputMetadata, CollectionEvent::OutputMetadata(Err(refusal))) => Err(refusal),
        (Pending::OutputMetadata, CollectionEvent::OutputMetadata(Ok(metadata))) => {
            match nomad_transfer_protocol::next_phase(
                before.phase,
                Direction::WorkerToGateway,
                FrameKind::OutputMetadata,
            ) {
                None => Err(out_of_phase()),
                Some(phase) => Ok(
                    (
                        Collecting {
                            phase,
                            current: Some(OutputImport { metadata, received: 0 }),
                            pending: Pending::Frame,
                            ..before
                        },
                        CollectionAction::ReadFrame,
                    ),
                ),
            }
        },
        (Pending::OutputNar, CollectionEvent::OutputNar(Err(refusal), _)) => Err(refusal),
        (Pending::OutputNar, CollectionEvent::OutputNar(Ok(metadata), payload_length)) => {
            match chunk_step(before, metadata, payload_length as int) {
                Err(refusal) => Err(refusal),
                Ok((after, last)) => Ok(
                    (
                        after,
                        if last {
                            CollectionAction::ImportOutput
                        } else {
                            CollectionAction::KeepPayload
                        },
                    ),
                ),
            }
        },
        (Pending::Import, CollectionEvent::Imported(Err(refusal))) => Err(refusal),
        (Pending::Import, CollectionEvent::Imported(Ok(false))) => Err(
            fault::data_fault("Nomad output import verification failed"),
        ),
        (Pending::Import, CollectionEvent::Imported(Ok(true))) => {
            match (
                before.current,
                nomad_transfer_protocol::next_phase(
                    before.phase,
                    Direction::GatewayToWorker,
                    FrameKind::OutputReceipt,
                ),
            ) {
                (Some(import), Some(phase)) => Ok(
                    (
                        Collecting { phase, current: None, pending: Pending::Frame, ..before },
                        CollectionAction::SendReceipt(
                            OutputReceipt { path: import.metadata.path, accepted: true },
                        ),
                    ),
                ),
                (Some(_), None) => Err(out_of_phase()),
                (None, _) => Err(out_of_order()),
            }
        },
        (Pending::BuildResult, CollectionEvent::BuildResult(Err(refusal))) => Err(refusal),
        (Pending::BuildResult, CollectionEvent::BuildResult(Ok(result))) => {
            match nomad_transfer_protocol::next_phase(
                before.phase,
                Direction::WorkerToGateway,
                FrameKind::BuildResult,
            ) {
                None => Err(out_of_phase()),
                Some(phase) => if result.outcome == BuildOutcome::Failed {
                    Ok(
                        (
                            Collecting { phase, pending: Pending::Finished, ..before },
                            CollectionAction::Finish(
                                BuildCollectionOutcome::Failed { diagnostic: result.diagnostic },
                            ),
                        ),
                    )
                } else {
                    Ok(
                        (
                            Collecting { phase, pending: Pending::Verification, ..before },
                            CollectionAction::VerifyOutputs,
                        ),
                    )
                },
            }
        },
        (Pending::Verification, CollectionEvent::Verified(Err(refusal))) => Err(refusal),
        (Pending::Verification, CollectionEvent::Verified(Ok(false))) => Err(
            fault::data_fault("Nomad output is unavailable in gateway store"),
        ),
        (Pending::Verification, CollectionEvent::Verified(Ok(true))) => Ok(
            (
                Collecting { pending: Pending::Finished, ..before },
                CollectionAction::Finish(BuildCollectionOutcome::Built),
            ),
        ),
        _ => Err(out_of_order()),
    }
}

/// Decides what follows an event while the outputs of a build come in. Where an event is
/// refused, the collection stays as it was.
#[verifier::rlimit(40)]
pub fn receive_build_outputs(collection: &mut OutputCollection, event: CollectionEvent) -> (action:
    Result<CollectionAction, Fault>)
    ensures
        match collection_step(old(collection)@, event) {
            Ok((after, expected)) => final(collection)@ == after && action == Ok::<
                CollectionAction,
                Fault,
            >(expected),
            Err(refusal) => final(collection)@ == old(collection)@ && action == Err::<
                CollectionAction,
                Fault,
            >(refusal),
        },
{
    match (collection.pending, event) {
        (Pending::Frame, CollectionEvent::Frame(kind)) => collection.on_frame(kind),
        (Pending::Collected, CollectionEvent::Collected(marked)) => {
            if !marked {
                return Err(other("Nomad output collection transition failed"));
            }
            collection.collecting = true;
            collection.pending = Pending::OutputMetadata;
            Ok(CollectionAction::ReadOutputMetadata)
        },
        (Pending::OutputMetadata, CollectionEvent::OutputMetadata(read)) => {
            let metadata = match read {
                Ok(metadata) => metadata,
                Err(refusal) => {
                    return Err(refusal);
                },
            };
            match collection.session.accept(Direction::WorkerToGateway, FrameKind::OutputMetadata) {
                Err(refusal) => Err(refusal),
                Ok(()) => {
                    collection.current = Some(OutputImport::new(metadata));
                    collection.pending = Pending::Frame;
                    Ok(CollectionAction::ReadFrame)
                },
            }
        },
        (Pending::OutputNar, CollectionEvent::OutputNar(read, payload_length)) => {
            let metadata = match read {
                Ok(metadata) => metadata,
                Err(refusal) => {
                    return Err(refusal);
                },
            };
            match collection.on_chunk(&metadata, payload_length) {
                Err(refusal) => Err(refusal),
                Ok(last) => {
                    if last {
                        Ok(CollectionAction::ImportOutput)
                    } else {
                        Ok(CollectionAction::KeepPayload)
                    }
                },
            }
        },
        (Pending::Import, CollectionEvent::Imported(imported)) => {
            let valid = match imported {
                Ok(valid) => valid,
                Err(refusal) => {
                    return Err(refusal);
                },
            };
            if !valid {
                return Err(invalid_data("Nomad output import verification failed"));
            }
            let path = match &collection.current {
                Some(import) => import.metadata.path.clone(),
                None => {
                    return Err(other("Nomad output collection event is out of order"));
                },
            };
            match collection.session.accept(Direction::GatewayToWorker, FrameKind::OutputReceipt) {
                Err(refusal) => Err(refusal),
                Ok(()) => {
                    collection.current = None;
                    collection.pending = Pending::Frame;
                    Ok(CollectionAction::SendReceipt(OutputReceipt { path, accepted: true }))
                },
            }
        },
        (Pending::BuildResult, CollectionEvent::BuildResult(read)) => {
            let result = match read {
                Ok(result) => result,
                Err(refusal) => {
                    return Err(refusal);
                },
            };
            match collection.session.accept(Direction::WorkerToGateway, FrameKind::BuildResult) {
                Err(refusal) => Err(refusal),
                Ok(()) => {
                    if result.outcome == BuildOutcome::Failed {
                        collection.pending = Pending::Finished;
                        return Ok(
                            CollectionAction::Finish(
                                BuildCollectionOutcome::Failed { diagnostic: result.diagnostic },
                            ),
                        );
                    }
                    collection.pending = Pending::Verification;
                    Ok(CollectionAction::VerifyOutputs)
                },
            }
        },
        (Pending::Verification, CollectionEvent::Verified(verified)) => {
            let valid = match verified {
                Ok(valid) => valid,
                Err(refusal) => {
                    return Err(refusal);
                },
            };
            if !valid {
                return Err(invalid_data("Nomad output is unavailable in gateway store"));
            }
            collection.pending = Pending::Finished;
            Ok(CollectionAction::Finish(BuildCollectionOutcome::Built))
        },
        _ => Err(other("Nomad output collection event is out of order")),
    }
}

/// What holds of a collection whatever events it has seen: an output is being taken in only
/// while outputs are collected, and one that is being added to the store has come in full.
pub open spec fn collection_invariant(state: Collecting) -> bool {
    &&& state.current is Some ==> state.collecting
    &&& state.pending == Pending::OutputMetadata ==> state.collecting && state.current is None
    &&& state.pending == Pending::Collected ==> !state.collecting
    &&& state.pending == Pending::Import ==> state.current is Some && (
    state.current->0).received == (state.current->0).metadata.nar_size
    &&& state.pending == Pending::BuildResult || state.pending == Pending::Verification
        || state.pending == Pending::Finished ==> state.current is None
    &&& state.pending == Pending::Finished || state.pending == Pending::Verification
        <==> state.phase == Phase::Complete
}

/// Every step keeps the invariant of a collection.
pub proof fn collection_keeps_its_invariant(before: Collecting, event: CollectionEvent)
    requires
        collection_invariant(before),
        collection_step(before, event) is Ok,
    ensures
        collection_invariant((collection_step(before, event)->Ok_0).0),
{
}

/// A receipt is sent only for an output whose whole NAR has come and which the store holds.
pub proof fn receipt_means_received(before: Collecting, event: CollectionEvent)
    requires
        collection_invariant(before),
        collection_step(before, event) is Ok,
        (collection_step(before, event)->Ok_0).1 is SendReceipt,
    ensures
        event == CollectionEvent::Imported(Ok(true)),
        before.current is Some,
        (before.current->0).received == (before.current->0).metadata.nar_size,
        (collection_step(before, event)->Ok_0).1->SendReceipt_0.path == (
        before.current->0).metadata.path,
{
}

/// A build counts as built only once the worker has said so and the store holds every output.
pub proof fn built_means_verified(before: Collecting, event: CollectionEvent)
    requires
        collection_invariant(before),
        collection_step(before, event) is Ok,
        (collection_step(before, event)->Ok_0).1 == CollectionAction::Finish(
            BuildCollectionOutcome::Built,
        ),
    ensures
        event == CollectionEvent::Verified(Ok(true)),
        before.phase == Phase::Complete,
        before.current is None,
{
}

/// The NAR of an input on its way to the worker.
#[derive(Debug)]
pub struct InputNarSink {
    path: String,
    nar_hash: String,
    nar_size: u64,
    offset: u64,
    chunk: Vec<u8>,
    capacity: usize,
}

/// A chunk that is ready to be sent.
#[derive(Debug)]
pub struct NarChunk {
    pub metadata: NarMetadata,
    pub payload: Vec<u8>,
}

/// The state of an input on its way.
pub struct Sending {
    pub path: String,
    pub nar_hash: String,
    pub nar_size: u64,
    pub offset: u64,
    pub chunk: Seq<u8>,
    pub capacity: usize,
}

impl View for InputNarSink {
    type V = Sending;

    closed spec fn view(&self) -> Sending {
        Sending {
            path: self.path,
            nar_hash: self.nar_hash,
            nar_size: self.nar_size,
            offset: self.offset,
            chunk: self.chunk@,
            capacity: self.capacity,
        }
    }
}

impl Sending {
    /// A chunk fits its buffer; once a chunk has gone ahead of the end, there is no buffer left.
    pub open spec fn well_formed(self) -> bool {
        &&& self.chunk.len() <= self.capacity
        &&& self.offset > 0 ==> self.capacity == 0 && self.offset < self.nar_size
    }

    /// Bytes find room in the buffer, or the buffer is sent before the end of the NAR.
    pub open spec fn has_room_for(self, bytes: nat) -> bool {
        bytes == 0 || self.offset + self.capacity < self.nar_size || self.chunk.len() + bytes
            <= self.capacity
    }

    /// Bytes fill the buffer before the end of the NAR, so that it is sent.
    pub open spec fn fills(self, input: Seq<u8>) -> bool {
        &&& input.len() > 0
        &&& self.capacity > 0
        &&& self.chunk.len() + input.len() > self.capacity || (self.chunk.len() + input.len()
            == self.capacity && self.capacity < self.nar_size)
    }

    /// The buffer once it is full.
    pub open spec fn filled(self, input: Seq<u8>) -> Sending {
        Sending { chunk: (self.chunk + input).take(self.capacity as int), ..self }
    }

    /// The state once bytes were taken in.
    pub open spec fn after(self, input: Seq<u8>) -> Sending {
        if input.len() == 0 || self.capacity == 0 {
            self
        } else if self.fills(input) {
            Sending {
                offset: self.capacity as u64,
                chunk: Seq::empty(),
                capacity: 0,
                ..self
            }
        } else {
            Sending { chunk: self.chunk + input, ..self }
        }
    }

    /// Bytes are taken in without a refusal.
    pub open spec fn takes(self, input: Seq<u8>) -> bool {
        input.len() == 0 || (self.capacity > 0 && (self.fills(input) ==> self.chunk.len()
            + input.len() == self.capacity))
    }

    /// The chunk that is sent next carries what the buffer holds.
    pub open spec fn is_chunk(self, sent: NarChunk, last: bool) -> bool {
        &&& sent.metadata.path == self.path
        &&& sent.metadata.nar_hash == self.nar_hash
        &&& sent.metadata.nar_size == self.nar_size
        &&& sent.metadata.offset == self.offset
        &&& sent.metadata.final_chunk == last
        &&& sent.payload@ == self.chunk
    }
}

impl InputNarSink {
    pub fn new(entry: &PathManifestEntry, capacity: usize) -> (sink: Self)
        ensures
            sink@ == (Sending {
                path: entry.path,
                nar_hash: entry.nar_hash,
                nar_size: entry.nar_size,
                offset: 0,
                chunk: Seq::empty(),
                capacity,
            }),
            sink@.well_formed(),
    {
        let sink = InputNarSink {
            path: entry.path.clone(),
            nar_hash: entry.nar_hash.clone(),
            nar_size: entry.nar_size,
            offset: 0,
            chunk: Vec::new(),
            capacity,
        };
        assert(sink.chunk@ =~= Seq::<u8>::empty());
        sink
    }

    /// Takes the chunk out of the buffer.
    fn send_chunk(&mut self, final_chunk: bool) -> (sent: Result<NarChunk, Fault>)
        requires
            old(self)@.offset + old(self)@.chunk.len() <= u64::MAX,
        ensures
            old(self)@.chunk.len() == 0 ==> final(self)@ == old(self)@ && sent == Err::<
                NarChunk,
                Fault,
            >(fault::data_fault("Nomad input NAR chunk is empty")),
            old(self)@.chunk.len() > 0 ==> sent is Ok && old(self)@.is_chunk(
                sent->Ok_0,
                final_chunk,
            ) && final(self)@ == (Sending {
                offset: (old(self)@.offset + old(self)@.chunk.len()) as u64,
                chunk: Seq::empty(),
                ..old(self)@
            }),
    {
        if self.chunk.len() == 0 {
            return Err(invalid_data("Nomad input NAR chunk is empty"));
        }
        let metadata = NarMetadata {
            path: self.path.clone(),
            nar_hash: self.nar_hash.clone(),
            nar_size: self.nar_size,
            offset: self.offset,
            final_chunk,
        };
        let mut payload: Vec<u8> = Vec::new();
        std::mem::swap(&mut payload, &mut self.chunk);
        self.offset = self.offset + payload.len() as u64;
        assert(self.chunk@ =~= Seq::<u8>::empty());
        Ok(NarChunk { metadata, payload })
    }

    /// Tells whether so many bytes may be taken in.
    pub fn has_room(&self, bytes: usize) -> (room: bool)
        requires
            self@.well_formed(),
        ensures
            room == self@.has_room_for(bytes as nat),
    {
        let capacity: u64 = self.capacity as u64;
        bytes == 0 || (self.offset < self.nar_size && capacity < self.nar_size - self.offset)
            || bytes <= self.capacity - self.chunk.len()
    }

    /// Takes in the next bytes of the NAR. A buffer that is full before the end of the NAR is
    /// sent; bytes that come after that find no buffer and are refused. A buffer that holds the
    /// whole NAR takes more bytes only as far as it has room.
    pub fn write(&mut self, input: &[u8]) -> (written: Written)
        requires
            old(self)@.well_formed(),
            old(self)@.has_room_for(input@.len()),
        ensures
            final(self)@.well_formed(),
            final(self)@ == old(self)@.after(input@),
            written.sent is Some <==> old(self)@.fills(input@),
            old(self)@.fills(input@) ==> old(self)@.filled(input@).is_chunk(
                written.sent->0,
                false,
            ),
            if old(self)@.takes(input@) {
                written.outcome is Ok
            } else {
                written.outcome == Err::<(), Fault>(
                    fault::data_fault("Nomad input NAR chunk is empty"),
                )
            },
    {
        if input.len() == 0 {
            return Written { sent: None, outcome: Ok(()) };
        }
        if self.capacity == 0 {
            return Written {
                sent: None,
                outcome: Err(invalid_data("Nomad input NAR chunk is empty")),
            };
        }
        let ghost before = self@;
        let ghost joined = before.chunk + input@;
        let room: usize = self.capacity - self.chunk.len();
        let copied: usize = if room < input.len() {
            room
        } else {
            input.len()
        };
        bytes::append_bytes(&mut self.chunk, vstd::slice::slice_subrange(input, 0, copied));
        assert(self.chunk@ =~= joined.take(before.chunk.len() + copied));
        if self.chunk.len() < self.capacity || self.chunk.len() as u64 >= self.nar_size {
            assert(joined.take(joined.len() as int) =~= joined);
            return Written { sent: None, outcome: Ok(()) };
        }
        let sent = match self.send_chunk(false) {
            Ok(sent) => sent,
            Err(refusal) => {
                return Written { sent: None, outcome: Err(refusal) };
            },
        };
        self.capacity = 0;
        if copied < input.len() {
            return Written {
                sent: Some(sent),
                outcome: Err(invalid_data("Nomad input NAR chunk is empty")),
            };
        }
        Written { sent: Some(sent), outcome: Ok(()) }
    }

    /// Ends the NAR with what the buffer holds.
    pub fn finish(&mut self) -> (sent: Result<NarChunk, Fault>)
        requires
            old(self)@.well_formed(),
        ensures
            ({
                let before = old(self)@;
                if before.offset + before.chunk.len() != before.nar_size {
                    &&& sent == Err::<NarChunk, Fault>(
                        fault::data_fault("Nomad input NAR length is invalid"),
                    )
                    &&& final(self)@ == before
                } else if before.chunk.len() == 0 {
                    &&& sent == Err::<NarChunk, Fault>(
                        fault::data_fault("Nomad input NAR chunk is empty"),
                    )
                    &&& final(self)@ == before
                } else {
                    &&& sent is Ok && before.is_chunk(sent->Ok_0, true)
                    &&& final(self)@ == (Sending {
                        offset: before.nar_size,
                        chunk: Seq::empty(),
                        ..before
                    })
                }
            }),
    {
        let length: u64 = self.chunk.len() as u64;
        if self.nar_size < self.offset || self.nar_size - self.offset != length {
            return Err(invalid_data("Nomad input NAR length is invalid"));
        }
        self.send_chunk(true)
    }
}

/// The state once pieces were taken in one after the other, and the payloads that were sent for
/// them; `None` where a piece found no room or was refused.
pub open spec fn taken(start: Sending, pieces: Seq<Seq<u8>>) -> Option<(Sending, Seq<u8>)>
    decreases pieces.len(),
{
    if pieces.len() == 0 {
        Some((start, Seq::empty()))
    } else {
        match taken(start, pieces.drop_last()) {
            Some((before, sent)) => {
                let piece = pieces.last();
                if !before.has_room_for(piece.len()) || !before.takes(piece) {
                    None
                } else if before.fills(piece) {
                    Some((before.after(piece), sent + before.filled(piece).chunk))
                } else {
                    Some((before.after(piece), sent))
                }
            },
            None => None,
        }
    }
}

proof fn nothing_taken_is_lost(start: Sending, pieces: Seq<Seq<u8>>)
    requires
        start.well_formed(),
        start.offset == 0,
        start.chunk.len() == 0,
    ensures
        taken(start, pieces) matches Some((state, sent)) ==> {
            &&& state.well_formed()
            &&& state.nar_size == start.nar_size
            &&& state.offset == sent.len()
            &&& sent + state.chunk == pieces.flatten()
        },
    decreases pieces.len(),
{
    if pieces.len() == 0 {
        assert(start.chunk =~= Seq::<u8>::empty());
        assert(pieces.flatten() =~= Seq::<u8>::empty());
        assert(Seq::<u8>::empty() + start.chunk =~= pieces.flatten());
    } else {
        let earlier = pieces.drop_last();
        let piece = pieces.last();
        nothing_taken_is_lost(start, earlier);
        assert(pieces =~= earlier.push(piece));
        earlier.lemma_flatten_push(piece);
        assert(pieces.flatten() == earlier.flatten() + piece);
        if let Some((before, sent)) = taken(start, earlier) {
            if before.has_room_for(piece.len()) && before.takes(piece) {
                let joined = before.chunk + piece;
                if before.fills(piece) {
                    assert(joined.take(before.capacity as int) =~= joined);
                    assert(sent + joined + Seq::<u8>::empty() =~= earlier.flatten() + piece);
                } else if piece.len() == 0 || before.capacity == 0 {
                    assert(sent + before.chunk =~= earlier.flatten() + piece);
                } else {
                    assert(sent + joined =~= earlier.flatten() + piece);
                }
            }
        }
    }
}

/// The payloads of an input that is sent to its end, joined, are the NAR: all of its bytes in
/// their order, and as many as were announced.
pub proof fn sent_payloads_are_the_nar(
    start: Sending,
    pieces: Seq<Seq<u8>>,
    state: Sending,
    sent: Seq<u8>,
    last: NarChunk,
)
    requires
        start.well_formed(),
        start.offset == 0,
        start.chunk.len() == 0,
        taken(start, pieces) == Some((state, sent)),
        state.offset + state.chunk.len() == state.nar_size,
        state.is_chunk(last, true),
    ensures
        sent + last.payload@ == pieces.flatten(),
        pieces.flatten().len() == start.nar_size,
        last.metadata.offset == sent.len(),
{
    nothing_taken_is_lost(start, pieces);
}

/// What became of bytes that were taken in.
#[derive(Debug)]
pub struct Written {
    /// A chunk that has to be sent, whatever the outcome.
    pub sent: Option<NarChunk>,
    pub outcome: Result<(), Fault>,
}

/// The place of the first entry with a path.
pub open spec fn entry_place(entries: Seq<PathManifestEntry>, path: Seq<char>) -> Option<int>
    decreases entries.len(),
{
    if entries.len() == 0 {
        None
    } else if entries[0].path@ == path {
        Some(0)
    } else {
        match entry_place(entries.drop_first(), path) {
            Some(place) => Some(place + 1),
            None => None,
        }
    }
}

/// Says which entry of the manifest has to be sent for the requested path at a position; paths
/// that the manifest does not hold are refused.
pub fn stream_requested_inputs(
    manifest: &InputManifest,
    requested: &PathSet,
    position: usize,
    now: u128,
    deadline: u128,
) -> (entry: Result<Option<usize>, Fault>)
    requires
        position <= requested.paths@.len(),
    ensures
        if position == requested.paths@.len() {
            entry == Ok::<Option<usize>, Fault>(None)
        } else if now >= deadline {
            entry == Err::<Option<usize>, Fault>(
                Fault { kind: FaultKind::TimedOut, message: "Nomad connection lifetime exceeded" },
            )
        } else {
            match entry_place(manifest.paths@, requested.paths@[position as int]@) {
                Some(place) => entry is Ok && entry->Ok_0 == Some(place as usize) && 0 <= place
                    < manifest.paths@.len(),
                None => entry == Err::<Option<usize>, Fault>(
                    other_fault("Nomad input request is not admitted"),
                ),
            }
        },
{
    if position == requested.paths.len() {
        return Ok(None);
    }
    ensure_before(now, deadline)?;
    let wanted = requested.paths[position].as_str();
    let ghost entries = manifest.paths@;
    let mut i: usize = 0;
    assert(entries.skip(0) =~= entries);
    while i < manifest.paths.len()
        invariant
            entries == manifest.paths@,
            i <= entries.len(),
            position < requested.paths@.len(),
            now < deadline,
            wanted@ == requested.paths@[position as int]@,
            match entry_place(entries.skip(i as int), wanted@) {
                Some(place) => entry_place(entries, wanted@) == Some(place + i),
                None => entry_place(entries, wanted@) is None,
            },
        decreases entries.len() - i,
    {
        assert(entries.skip(i as int).drop_first() =~= entries.skip(i + 1));
        assert(entries.skip(i as int)[0] == entries[i as int]);
        if text::same_text(manifest.paths[i].path.as_str(), wanted) {
            return Ok(Some(i));
        }
        i += 1;
    }
    Err(other("Nomad input request is not admitted"))
}

/// The paths whose closure a build needs: its sources and its derivation.
pub open spec fn roots_of(build: BuildInputs) -> Seq<Seq<u8>> {
    build.input_sources@.map_values(|source: Vec<u8>| source@).push(build.derivation_path@)
}

/// Every root is a path of the closure.
pub open spec fn covers(closure: Seq<PathManifestEntry>, roots: Seq<Seq<u8>>) -> bool {
    forall|i: int|
        0 <= i < roots.len() ==> exists|k: int|
            0 <= k < closure.len() && encode_utf8((#[trigger] closure[k]).path@)
                == #[trigger] roots[i]
}

fn closure_holds(closure: &Vec<PathManifestEntry>, root: &[u8]) -> (found: bool)
    ensures
        found == exists|k: int|
            0 <= k < closure@.len() && encode_utf8((#[trigger] closure@[k]).path@) == root@,
{
    let mut i: usize = 0;
    while i < closure.len()
        invariant
            i <= closure@.len(),
            forall|k: int|
                0 <= k < i ==> encode_utf8((#[trigger] closure@[k]).path@) != root@,
        decreases closure@.len() - i,
    {
        if text::same_bytes(closure[i].path.as_str().as_bytes(), root) {
            return true;
        }
        i += 1;
    }
    false
}

/// Lists the paths whose closure a build needs.
pub fn closure_roots(build: &BuildInputs) -> (roots: Vec<Vec<u8>>)
    ensures
        roots@.len() == roots_of(*build).len(),
        forall|i: int| 0 <= i < roots@.len() ==> (#[trigger] roots@[i])@ == roots_of(*build)[i],
{
    let mut roots: Vec<Vec<u8>> = Vec::new();
    let ghost expected = roots_of(*build);
    let mut i: usize = 0;
    while i < build.input_sources.len()
        invariant
            expected == roots_of(*build),
            i <= build.input_sources@.len(),
            roots@.len() == i,
            forall|j: int| 0 <= j < i ==> (#[trigger] roots@[j])@ == expected[j],
        decreases build.input_sources@.len() - i,
    {
        let source = vstd::slice::slice_to_vec(build.input_sources[i].as_slice());
        assert(expected[i as int] == build.input_sources@[i as int]@);
        roots.push(source);
        i += 1;
    }
    roots.push(vstd::slice::slice_to_vec(build.derivation_path.as_slice()));
    roots
}

/// Makes the manifest of a build from the closure of its roots. The closure has to hold every
/// root, and the paths have to be text.
pub fn input_manifest(build: &BuildInputs, closure: Vec<PathManifestEntry>) -> (manifest: Result<
    InputManifest,
    Fault,
>)
    ensures
        match manifest {
            Ok(made) => {
                &&& covers(closure@, roots_of(*build))
                &&& encode_utf8(made.derivation_path@) == build.derivation_path@
                &&& made.paths == closure
                &&& made.outputs@.len() == build.expected_outputs@.len()
                &&& forall|i: int|
                    0 <= i < made.outputs@.len() ==> encode_utf8((#[trigger] made.outputs@[i])@)
                        == build.expected_outputs@[i].1@
            },
            Err(refusal) => refusal == (if !covers(closure@, roots_of(*build)) {
                other_fault("Nomad callback input closure is incomplete")
            } else if !valid_utf8(build.derivation_path@) {
                other_fault("Nomad callback derivation path is invalid")
            } else {
                other_fault("Nomad callback output path is invalid")
            }) && !(covers(closure@, roots_of(*build)) && valid_utf8(build.derivation_path@) && (
            forall|i: int|
                0 <= i < build.expected_outputs@.len() ==> valid_utf8(
                    (#[trigger] build.expected_outputs@[i]).1@,
                ))),
        },
{
    let ghost roots = roots_of(*build);
    let mut i: usize = 0;
    while i < build.input_sources.len()
        invariant
            roots == roots_of(*build),
            i <= build.input_sources@.len(),
            forall|j: int|
                0 <= j < i ==> exists|k: int|
                    0 <= k < closure@.len() && encode_utf8((#[trigger] closure@[k]).path@)
                        == #[trigger] roots[j],
        decreases build.input_sources@.len() - i,
    {
        assert(roots[i as int] == build.input_sources@[i as int]@);
        if !closure_holds(&closure, build.input_sources[i].as_slice()) {
            assert(!covers(closure@, roots));
            return Err(other("Nomad callback input closure is incomplete"));
        }
        i += 1;
    }
    assert(roots[i as int] == build.derivation_path@);
    if !closure_holds(&closure, build.derivation_path.as_slice()) {
        assert(!covers(closure@, roots));
        return Err(other("Nomad callback input closure is incomplete"));
    }
    assert(covers(closure@, roots));
    let derivation_path = match text::text_of_bytes(build.derivation_path.as_slice()) {
        Some(derivation_path) => derivation_path,
        None => {
            return Err(other("Nomad callback derivation path is invalid"));
        },
    };
    proof {
        decode_utf8_encode_utf8(build.derivation_path@);
    }
    let mut outputs: Vec<String> = Vec::new();
    let mut j: usize = 0;
    while j < build.expected_outputs.len()
        invariant
            j <= build.expected_outputs@.len(),
            covers(closure@, roots_of(*build)),
            valid_utf8(build.derivation_path@),
            outputs@.len() == j,
            forall|k: int|
                0 <= k < j ==> encode_utf8((#[trigger] outputs@[k])@)
                    == build.expected_outputs@[k].1@,
            forall|k: int|
                0 <= k < j ==> valid_utf8((#[trigger] build.expected_outputs@[k]).1@),
        decreases build.expected_outputs@.len() - j,
    {
        match text::text_of_bytes(build.expected_outputs[j].1.as_slice()) {
            Some(output) => {
                proof {
                    decode_utf8_encode_utf8(build.expected_outputs@[j as int].1@);
                }
                outputs.push(output);
            },
            None => {
                return Err(other("Nomad callback output path is invalid"));
            },
        }
        j += 1;
    }
    Ok(InputManifest { derivation_path, paths: closure, outputs })
}

/// The path part of a URL, from the first slash after its authority.
pub open spec fn url_path(url: Seq<char>) -> Option<Seq<char>> {
    match text::position(url, seq![':', '/', '/']) {
        None => None,
        Some(scheme) => {
            let authority = url.skip(scheme + 3);
            match text::position(authority, seq!['/']) {
                None => Some("/"@),
                Some(offset) => Some(authority.skip(offset)),
            }
        },
    }
}

/// The path at which the gateway is called back.
pub fn callback_path(public_url: &str) -> (path: Result<&str, Fault>)
    ensures
        match url_path(public_url@) {
            Some(expected) => path is Ok && path->Ok_0@ == expected,
            None => path == Err::<&str, Fault>(other_fault("Nomad callback URL is invalid")),
        },
{
    let url = text::characters(public_url);
    let length: usize = url.len();
    let separator: Vec<char> = vec![':', '/', '/'];
    assert(separator@ =~= seq![':', '/', '/']);
    let scheme = match text::find(url.as_slice(), separator.as_slice()) {
        Some(scheme) => scheme,
        None => {
            return Err(other("Nomad callback URL is invalid"));
        },
    };
    proof {
        text::position_is_first(public_url@, seq![':', '/', '/']);
    }
    let start: usize = scheme + 3;
    let authority = vstd::slice::slice_subrange(url.as_slice(), start, length);
    assert(authority@ =~= public_url@.skip(start as int));
    let slash: Vec<char> = vec!['/'];
    assert(slash@ =~= seq!['/']);
    match text::find(authority, slash.as_slice()) {
        None => Ok("/"),
        Some(offset) => {
            proof {
                text::position_is_first(authority@, seq!['/']);
            }
            let path = public_url.substring_char(start + offset, length);
            assert(path@ =~= authority@.skip(offset as int));
            Ok(path)
        },
    }
}

/// What is known of the execution that a worker says it belongs to.
#[derive(Clone, Debug)]
pub struct ExecutionFacts {
    /// The execution is the one that the worker authenticated for.
    pub matches: bool,
    pub derivation_path: Option<String>,
    /// There is a build specification.
    pub has_build_request: bool,
}

/// What a worker of an execution is checked against where it presents a token.
#[derive(Clone, Debug)]
pub struct WorkloadIdentityPolicy {
    pub issuer: String,
    pub jwks_url: String,
    pub audience: String,
    pub namespace: String,
    pub job_id: String,
    pub task: String,
    pub ca_certificate_file: Option<String>,
    pub request_timeout: Span,
    pub maximum_jwks_bytes: usize,
    pub clock_skew: Span,
}

fn copy_option(value: &Option<String>) -> (copied: Option<String>)
    ensures
        copied == *value,
{
    match value {
        Some(text) => Some(text.clone()),
        None => None,
    }
}

/// The policy for a worker that presents a token, where its backend is set up for tokens.
pub fn workload_identity_policy(
    backend: &NomadBackendConfig,
    callback: &NomadCallbackConfig,
    authentication: &Authentication,
) -> (policy: Option<WorkloadIdentityPolicy>)
    ensures
        is_token_policy(policy, *backend, *callback, *authentication),
{
    match &backend.transfer_authentication {
        NomadTransferAuthentication::WorkloadIdentity {
            issuer,
            jwks_url,
            audience,
            ca_certificate_file,
        } => Some(
            WorkloadIdentityPolicy {
                issuer: issuer.clone(),
                jwks_url: jwks_url.clone(),
                audience: audience.clone(),
                namespace: backend.namespace.clone(),
                job_id: authentication.job_id.clone(),
                task: "build".to_owned(),
                ca_certificate_file: copy_option(ca_certificate_file),
                request_timeout: callback.authentication_request_timeout,
                maximum_jwks_bytes: callback.maximum_jwks_bytes,
                clock_skew: backend.transfer_limits.clock_skew,
            },
        ),
        NomadTransferAuthentication::Hmac { .. } => None,
    }
}

/// The policy for a worker that signs with a shared secret, where its backend is set up for one.
pub fn hmac_policy(
    backend: &NomadBackendConfig,
    callback: &NomadCallbackConfig,
    authentication: &Authentication,
    secret: Vec<u8>,
) -> (policy: Option<HmacVerificationPolicy>)
    ensures
        is_secret_policy(policy, *backend, *callback, *authentication, secret@),
        policy is Some ==> policy->0.secret == secret,
{
    match &backend.transfer_authentication {
        NomadTransferAuthentication::Hmac { key_id, .. } => Some(
            HmacVerificationPolicy {
                key_id: key_id.clone(),
                secret,
                backend: authentication.backend.clone(),
                namespace: backend.namespace.clone(),
                job_id: authentication.job_id.clone(),
                shared_build_digest: authentication.shared_build_digest.clone(),
                task: "build".to_owned(),
                clock_skew: backend.transfer_limits.clock_skew,
                nonce_retention: backend.transfer_limits.nonce_retention,
                maximum_retained_nonces: callback.maximum_retained_nonces,
            },
        ),
        NomadTransferAuthentication::WorkloadIdentity { .. } => None,
    }
}

/// The build that a connection is about.
#[derive(Debug)]
pub struct BuildIdentity {
    pub backend: String,
    pub execution_id: String,
    pub derivation_path: String,
}

/// How far the connection of a worker has come. Moments count nanoseconds from a common start.
#[derive(Debug)]
pub enum ConnectionStage {
    Authentication,
    Execution(Authentication),
    Admission { authentication: Authentication, execution: ExecutionFacts, backend: usize },
    Manifest { build: BuildIdentity, deadline: u128 },
    ValidPaths { build: BuildIdentity, deadline: u128, phase: Phase },
    InputRequest { build: BuildIdentity, deadline: u128, phase: Phase },
    Streaming { build: BuildIdentity, phase: Phase },
    Collecting { build: BuildIdentity },
    /// A failed transfer is being recorded; this is what is reported in the end.
    RecordingTransferFailure(Fault),
    RecordingBuildFailure,
    RecordingSuccess,
    Closed,
}

/// What has happened outside.
#[derive(Debug)]
pub enum ConnectionEvent {
    /// The first message was read and understood.
    Authenticated(Result<Authentication, Fault>),
    /// The execution was looked up.
    Resolved(Result<Option<ExecutionFacts>, Fault>),
    /// The proof of the worker was verified.
    Admitted(Result<(), Fault>, u128),
    /// The manifest was made and sent.
    ManifestSent(Result<(), Fault>, u128),
    /// A frame was read, and its metadata understood.
    FrameRead(Result<FrameKind, Fault>, u128),
    InputsStreamed(Result<(), Fault>),
    OutputsReceived(Result<BuildCollectionOutcome, Fault>),
    /// The end of the build was recorded, or that failed.
    Recorded(bool),
}

/// What is recorded of a failure.
#[derive(Debug)]
pub enum FailureReport {
    Stage(&'static str),
    Diagnostic(Option<String>),
}

/// A failure as it is recorded.
pub open spec fn failure_json(report: FailureReport) -> Seq<char> {
    match report {
        FailureReport::Stage(stage) => "{\"stage\":"@ + crypto::json_string(stage@) + "}"@,
        FailureReport::Diagnostic(Some(diagnostic)) => "{\"diagnostic\":"@ + crypto::json_string(
            diagnostic@,
        ) + "}"@,
        FailureReport::Diagnostic(None) => "{\"diagnostic\":null}"@,
    }
}

/// Writes down what is recorded of a failure.
pub fn failure_metadata(report: &FailureReport) -> (written: String)
    ensures
        written@ == failure_json(*report),
{
    let mut written = String::new();
    match report {
        FailureReport::Stage(stage) => {
            written.append("{\"stage\":");
            written.append(crypto::json_string_text(stage).as_str());
            written.append("}");
        },
        FailureReport::Diagnostic(Some(diagnostic)) => {
            written.append("{\"diagnostic\":");
            written.append(crypto::json_string_text(diagnostic.as_str()).as_str());
            written.append("}");
        },
        FailureReport::Diagnostic(None) => {
            written.append("{\"diagnostic\":null}");
        },
    }
    assert(written@ =~= failure_json(*report));
    written
}

/// A build that a worker built as it is recorded, with its outputs.
pub open spec fn success_json(build: BuildIdentity, outputs: Seq<(String, String)>) -> Seq<char> {
    "{\"backend\":"@ + crypto::json_string(build.backend@) + ",\"execution_id\":"@
        + crypto::json_string(build.execution_id@) + ",\"outputs\":["@ + metadata::outputs_json(
        outputs,
    ) + "],\"status\":\"built\"}"@
}

/// Writes down what is recorded of a build that a worker built.
pub fn success_metadata(build: &BuildIdentity, outputs: &Vec<(String, String)>) -> (written: String)
    ensures
        written@ == success_json(*build, outputs@),
{
    let mut written = String::new();
    written.append("{\"backend\":");
    written.append(crypto::json_string_text(build.backend.as_str()).as_str());
    written.append(",\"execution_id\":");
    written.append(crypto::json_string_text(build.execution_id.as_str()).as_str());
    written.append(",\"outputs\":[");
    written.append(metadata::outputs_text(outputs).as_str());
    written.append("],\"status\":\"built\"}");
    assert(written@ =~= success_json(*build, outputs@));
    written
}

/// What has to be done outside.
#[derive(Debug)]
pub enum ConnectionAction {
    ResolveExecution,
    /// Verify the proof of the worker against the backend at this place.
    Admit(usize),
    SendManifest,
    /// Read a frame without a payload.
    ReadFrame,
    StreamInputs,
    ReceiveOutputs(Phase),
    RecordFailure { derivation_path: String, classification: &'static str, report: FailureReport },
    RecordSuccess(BuildIdentity),
    Close(Result<(), Fault>),
}

/// The place of the first backend with a name.
pub open spec fn backend_place(backends: Seq<NomadBackendConfig>, name: Seq<char>) -> Option<int>
    decreases backends.len(),
{
    if backends.len() == 0 {
        None
    } else if backends[0].target.name@ == name {
        Some(0)
    } else {
        match backend_place(backends.drop_first(), name) {
            Some(place) => Some(place + 1),
            None => None,
        }
    }
}

fn find_backend(backends: &[NomadBackendConfig], name: &str) -> (place: Option<usize>)
    ensures
        match place {
            Some(found) => backend_place(backends@, name@) == Some(found as int) && found
                < backends@.len(),
            None => backend_place(backends@, name@) is None,
        },
{
    let ghost whole = backends@;
    let mut i: usize = 0;
    assert(whole.skip(0) =~= whole);
    while i < backends.len()
        invariant
            whole == backends@,
            i <= whole.len(),
            match backend_place(whole.skip(i as int), name@) {
                Some(place) => backend_place(whole, name@) == Some(place + i),
                None => backend_place(whole, name@) is None,
            },
        decreases whole.len() - i,
    {
        assert(whole.skip(i as int).drop_first() =~= whole.skip(i + 1));
        assert(whole.skip(i as int)[0] == whole[i as int]);
        if text::same_text(backends[i].target.name.as_str(), name) {
            return Some(i);
        }
        i += 1;
    }
    None
}

pub open spec fn lifetime_fault() -> Fault {
    Fault { kind: FaultKind::TimedOut, message: "Nomad connection lifetime exceeded" }
}

/// The step after the execution was looked up.
pub open spec fn resolved_step(
    authentication: Authentication,
    resolved: Result<Option<ExecutionFacts>, Fault>,
    backends: Seq<NomadBackendConfig>,
) -> Result<(ConnectionStage, ConnectionAction), Fault> {
    match resolved {
        Err(refusal) => Err(refusal),
        Ok(None) => Err(other_fault("Nomad callback execution is unavailable")),
        Ok(Some(execution)) => match backend_place(backends, authentication.backend@) {
            None => Err(other_fault("Nomad callback backend is unavailable")),
            Some(place) => Ok(
                (
                    ConnectionStage::Admission {
                        authentication,
                        execution,
                        backend: place as usize,
                    },
                    ConnectionAction::Admit(place as usize),
                ),
            ),
        },
    }
}

/// The step after the proof of the worker was verified.
pub open spec fn admitted_step(
    authentication: Authentication,
    execution: ExecutionFacts,
    lifetime: Span,
    outcome: Result<(), Fault>,
    now: u128,
) -> Result<(ConnectionStage, ConnectionAction), Fault> {
    match outcome {
        Err(refusal) => Err(refusal),
        Ok(()) => if !execution.matches {
            Err(other_fault("Nomad callback execution identity is inconsistent"))
        } else if execution.derivation_path is None {
            Err(other_fault("Nomad callback derivation identity is unavailable"))
        } else if !execution.has_build_request {
            Err(other_fault("Nomad callback build specification is unavailable"))
        } else if now + lifetime.total() > u128::MAX {
            Err(other_fault("Nomad connection lifetime is invalid"))
        } else {
            Ok(
                (
                    ConnectionStage::Manifest {
                        build: BuildIdentity {
                            backend: authentication.backend,
                            execution_id: authentication.job_id,
                            derivation_path: execution.derivation_path->0,
                        },
                        deadline: (now + lifetime.total()) as u128,
                    },
                    ConnectionAction::SendManifest,
                ),
            )
        },
    }
}

/// The step that an event leads to; the event has to be the one that is waited for.
pub open spec fn connection_step(
    stage: ConnectionStage,
    event: ConnectionEvent,
    backends: Seq<NomadBackendConfig>,
) -> Result<(ConnectionStage, ConnectionAction), Fault> {
    match (stage, event) {
        (ConnectionStage::Authentication, ConnectionEvent::Authenticated(Err(refusal))) => Err(
            refusal,
        ),
        (ConnectionStage::Authentication, ConnectionEvent::Authenticated(Ok(authentication))) => Ok(
            (ConnectionStage::Execution(authentication), ConnectionAction::ResolveExecution),
        ),
        (ConnectionStage::Execution(authentication), ConnectionEvent::Resolved(resolved)) => {
            resolved_step(authentication, resolved, backends)
        },
        (
            ConnectionStage::Admission { authentication, execution, backend },
            ConnectionEvent::Admitted(outcome, now),
        ) => if backend < backends.len() {
            admitted_step(
                authentication,
                execution,
                backends[backend as int].transfer_limits.maximum_connection_lifetime,
                outcome,
                now,
            )
        } else {
            Err(other_fault("Nomad callback backend is unavailable"))
        },
        (
            ConnectionStage::Manifest { build, deadline },
            ConnectionEvent::ManifestSent(outcome, now),
        ) => match outcome {
            Err(refusal) => Err(refusal),
            Ok(()) => if now >= deadline {
                Err(lifetime_fault())
            } else {
                Ok(
                    (
                        ConnectionStage::ValidPaths {
                            build,
                            deadline,
                            phase: Phase::ResolvingInputs,
                        },
                        ConnectionAction::ReadFrame,
                    ),
                )
            },
        },
        (
            ConnectionStage::ValidPaths { build, deadline, phase },
            ConnectionEvent::FrameRead(read, now),
        ) => match read {
            Err(refusal) => Err(refusal),
            Ok(kind) => match nomad_transfer_protocol::next_phase(
                phase,
                Direction::WorkerToGateway,
                kind,
            ) {
                None => Err(out_of_phase()),
                Some(next) => if now >= deadline {
                    Err(lifetime_fault())
                } else {
                    Ok(
                        (
                            ConnectionStage::InputRequest { build, deadline, phase: next },
                            ConnectionAction::ReadFrame,
                        ),
                    )
                },
            },
        },
        (
            ConnectionStage::InputRequest { build, deadline, phase },
            ConnectionEvent::FrameRead(read, now),
        ) => match read {
            Err(refusal) => Err(refusal),
            Ok(kind) => match nomad_transfer_protocol::next_phase(
                phase,
                Direction::WorkerToGateway,
                kind,
            ) {
                None => Err(out_of_phase()),
                Some(next) => Ok(
                    (
                        ConnectionStage::Streaming { build, phase: next },
                        ConnectionAction::StreamInputs,
                    ),
                ),
            },
        },
        (
            ConnectionStage::Streaming { build, phase },
            ConnectionEvent::InputsStreamed(outcome),
        ) => match outcome {
            Err(refusal) => Err(refusal),
            Ok(()) => Ok(
                (ConnectionStage::Collecting { build }, ConnectionAction::ReceiveOutputs(phase)),
            ),
        },
        (ConnectionStage::Collecting { build }, ConnectionEvent::OutputsReceived(received)) => {
            match received {
                Err(refusal) => Ok(
                    (
                        ConnectionStage::RecordingTransferFailure(refusal),
                        ConnectionAction::RecordFailure {
                            derivation_path: build.derivation_path,
                            classification: "nomad-transfer-failure",
                            report: FailureReport::Stage("output-collection"),
                        },
                    ),
                ),
                Ok(BuildCollectionOutcome::Failed { diagnostic }) => Ok(
                    (
                        ConnectionStage::RecordingBuildFailure,
                        ConnectionAction::RecordFailure {
                            derivation_path: build.derivation_path,
                            classification: "nomad-build-failure",
                            report: FailureReport::Diagnostic(diagnostic),
                        },
                    ),
                ),
                Ok(BuildCollectionOutcome::Built) => Ok(
                    (ConnectionStage::RecordingSuccess, ConnectionAction::RecordSuccess(build)),
                ),
            }
        },
        (
            ConnectionStage::RecordingTransferFailure(refusal),
            ConnectionEvent::Recorded(_),
        ) => Ok((ConnectionStage::Closed, ConnectionAction::Close(Err(refusal)))),
        (ConnectionStage::RecordingBuildFailure, ConnectionEvent::Recorded(recorded)) => {
            if recorded {
                Ok((ConnectionStage::Closed, ConnectionAction::Close(Ok(()))))
            } else {
                Err(other_fault("Nomad shared build failure completion failed"))
            }
        },
        (ConnectionStage::RecordingSuccess, ConnectionEvent::Recorded(recorded)) => {
            if recorded {
                Ok((ConnectionStage::Closed, ConnectionAction::Close(Ok(()))))
            } else {
                Err(other_fault("Nomad shared build completion failed"))
            }
        },
        _ => Err(other_fault("Nomad callback event is out of order")),
    }
}

fn accept_frame(phase: Phase, kind: FrameKind) -> (next: Result<Phase, Fault>)
    ensures
        match nomad_transfer_protocol::next_phase(phase, Direction::WorkerToGateway, kind) {
            Some(reached) => next == Ok::<Phase, Fault>(reached),
            None => next == Err::<Phase, Fault>(out_of_phase()),
        },
{
    let mut session = ProtocolSession::resume(phase);
    match session.accept(Direction::WorkerToGateway, kind) {
        Ok(()) => Ok(session.phase()),
        Err(refusal) => Err(refusal),
    }
}

/// Decides what follows an event on the connection of a worker. A refused event ends the
/// connection.
#[verifier::rlimit(60)]
pub fn serve_connection(
    stage: ConnectionStage,
    event: ConnectionEvent,
    backends: &[NomadBackendConfig],
) -> (step: Result<(ConnectionStage, ConnectionAction), Fault>)
    ensures
        step == connection_step(stage, event, backends@),
{
    match (stage, event) {
        (ConnectionStage::Authentication, ConnectionEvent::Authenticated(read)) => match read {
            Err(refusal) => Err(refusal),
            Ok(authentication) => Ok(
                (ConnectionStage::Execution(authentication), ConnectionAction::ResolveExecution),
            ),
        },
        (ConnectionStage::Execution(authentication), ConnectionEvent::Resolved(resolved)) => {
            let execution = match resolved {
                Err(refusal) => {
                    return Err(refusal);
                },
                Ok(None) => {
                    return Err(other("Nomad callback execution is unavailable"));
                },
                Ok(Some(execution)) => execution,
            };
            match find_backend(backends, authentication.backend.as_str()) {
                None => Err(other("Nomad callback backend is unavailable")),
                Some(backend) => Ok(
                    (
                        ConnectionStage::Admission { authentication, execution, backend },
                        ConnectionAction::Admit(backend),
                    ),
                ),
            }
        },
        (
            ConnectionStage::Admission { authentication, execution, backend },
            ConnectionEvent::Admitted(outcome, now),
        ) => {
            if backend >= backends.len() {
                return Err(other("Nomad callback backend is unavailable"));
            }
            if let Err(refusal) = outcome {
                return Err(refusal);
            }
            if !execution.matches {
                return Err(other("Nomad callback execution identity is inconsistent"));
            }
            let derivation_path = match execution.derivation_path {
                Some(derivation_path) => derivation_path,
                None => {
                    return Err(other("Nomad callback derivation identity is unavailable"));
                },
            };
            if !execution.has_build_request {
                return Err(other("Nomad callback build specification is unavailable"));
            }
            let lifetime: u128 = backends[backend].transfer_limits.maximum_connection_lifetime.nanoseconds_in_all();
            match now.checked_add(lifetime) {
                None => Err(other("Nomad connection lifetime is invalid")),
                Some(deadline) => Ok(
                    (
                        ConnectionStage::Manifest {
                            build: BuildIdentity {
                                backend: authentication.backend,
                                execution_id: authentication.job_id,
                                derivation_path,
                            },
                            deadline,
                        },
                        ConnectionAction::SendManifest,
                    ),
                ),
            }
        },
        (
            ConnectionStage::Manifest { build, deadline },
            ConnectionEvent::ManifestSent(outcome, now),
        ) => {
            if let Err(refusal) = outcome {
                return Err(refusal);
            }
            ensure_before(now, deadline)?;
            Ok(
                (
                    ConnectionStage::ValidPaths { build, deadline, phase: Phase::ResolvingInputs },
                    ConnectionAction::ReadFrame,
                ),
            )
        },
        (
            ConnectionStage::ValidPaths { build, deadline, phase },
            ConnectionEvent::FrameRead(read, now),
        ) => {
            let kind = match read {
                Err(refusal) => {
                    return Err(refusal);
                },
                Ok(kind) => kind,
            };
            let next = accept_frame(phase, kind)?;
            ensure_before(now, deadline)?;
            Ok(
                (
                    ConnectionStage::InputRequest { build, deadline, phase: next },
                    ConnectionAction::ReadFrame,
                ),
            )
        },
        (
            ConnectionStage::InputRequest { build, deadline: _, phase },
            ConnectionEvent::FrameRead(read, _),
        ) => {
            let kind = match read {
                Err(refusal) => {
                    return Err(refusal);
                },
                Ok(kind) => kind,
            };
            let next = accept_frame(phase, kind)?;
            Ok(
                (
                    ConnectionStage::Streaming { build, phase: next },
                    ConnectionAction::StreamInputs,
                ),
            )
        },
        (
            ConnectionStage::Streaming { build, phase },
            ConnectionEvent::InputsStreamed(outcome),
        ) => match outcome {
            Err(refusal) => Err(refusal),
            Ok(()) => Ok(
                (ConnectionStage::Collecting { build }, ConnectionAction::ReceiveOutputs(phase)),
            ),
        },
        (ConnectionStage::Collecting { build }, ConnectionEvent::OutputsReceived(received)) => {
            match received {
                Err(refusal) => Ok(
                    (
                        ConnectionStage::RecordingTransferFailure(refusal),
                        ConnectionAction::RecordFailure {
                            derivation_path: build.derivation_path,
                            classification: "nomad-transfer-failure",
                            report: FailureReport::Stage("output-collection"),
                        },
                    ),
                ),
                Ok(BuildCollectionOutcome::Failed { diagnostic }) => Ok(
                    (
                        ConnectionStage::RecordingBuildFailure,
                        ConnectionAction::RecordFailure {
                            derivation_path: build.derivation_path,
                            classification: "nomad-build-failure",
                            report: FailureReport::Diagnostic(diagnostic),
                        },
                    ),
                ),
                Ok(BuildCollectionOutcome::Built) => Ok(
                    (ConnectionStage::RecordingSuccess, ConnectionAction::RecordSuccess(build)),
                ),
            }
        },
        (ConnectionStage::RecordingTransferFailure(refusal), ConnectionEvent::Recorded(_)) => Ok(
            (ConnectionStage::Closed, ConnectionAction::Close(Err(refusal))),
        ),
        (ConnectionStage::RecordingBuildFailure, ConnectionEvent::Recorded(recorded)) => {
            if !recorded {
                return Err(other("Nomad shared build failure completion failed"));
            }
            Ok((ConnectionStage::Closed, ConnectionAction::Close(Ok(()))))
        },
        (ConnectionStage::RecordingSuccess, ConnectionEvent::Recorded(recorded)) => {
            if !recorded {
                return Err(other("Nomad shared build completion failed"));
            }
            Ok((ConnectionStage::Closed, ConnectionAction::Close(Ok(()))))
        },
        _ => Err(other("Nomad callback event is out of order")),
    }
}

/// Inputs are sent only to a worker whose proof was verified for an execution that is its own.
pub proof fn manifest_needs_admission(
    stage: ConnectionStage,
    event: ConnectionEvent,
    backends: Seq<NomadBackendConfig>,
)
    requires
        connection_step(stage, event, backends) is Ok,
        (connection_step(stage, event, backends)->Ok_0).1 == ConnectionAction::SendManifest,
    ensures
        stage is Admission,
        stage->execution.matches,
        event matches ConnectionEvent::Admitted(outcome, _) && outcome is Ok,
{
}

/// A build is recorded as built only once its outputs were received as built.
pub proof fn success_needs_built_outputs(
    stage: ConnectionStage,
    event: ConnectionEvent,
    backends: Seq<NomadBackendConfig>,
)
    requires
        connection_step(stage, event, backends) is Ok,
        (connection_step(stage, event, backends)->Ok_0).1 is RecordSuccess,
    ensures
        stage is Collecting,
        event == ConnectionEvent::OutputsReceived(Ok(BuildCollectionOutcome::Built)),
{
}

/// What was found when a connection was waited for.
#[derive(Clone, Copy, Debug)]
pub enum Accepted {
    Connection,
    /// No worker has connected; wait a little.
    Nothing,
    Failed(Fault),
}

/// What the listener does next.
#[derive(Clone, Copy, Debug)]
pub enum ListenerStep {
    Stop,
    Pause,
    Fail(Fault),
    /// Too many workers are connected: drop this one.
    Reject,
    /// Serve the worker under this number.
    Serve(u64),
}

/// What a shutdown does next.
#[derive(Clone, Copy, Debug, PartialEq, Eq, Structural)]
pub enum DrainStep {
    Wait,
    /// Close what is still open, and join the workers.
    CloseAll,
}

/// The service that Nomad workers call back, as far as it counts its connections.
#[derive(Debug)]
pub struct NomadCallbackService {
    stopping: bool,
    open: Vec<u64>,
    next: u64,
    permits: Permits,
}

impl NomadCallbackService {
    pub closed spec fn is_stopping(&self) -> bool {
        self.stopping
    }

    /// The numbers of the connections that are open.
    pub closed spec fn connections(&self) -> Seq<u64> {
        self.open@
    }

    /// How many connections may be open at once.
    pub closed spec fn maximum(&self) -> usize {
        self.permits.limit()
    }

    pub closed spec fn next_number(&self) -> u64 {
        self.next
    }

    /// A permit is held for each open connection, so that no more are open than may be.
    pub closed spec fn counted(&self) -> bool {
        self.permits.well_formed() && self.open@.len() == self.permits.held()
    }

    pub open spec fn well_formed(&self) -> bool {
        self.counted() && self.connections().len() <= self.maximum()
    }

    pub fn start(maximum_connections: usize) -> (service: Self)
        ensures
            service.well_formed(),
            !service.is_stopping(),
            service.connections().len() == 0,
            service.maximum() == maximum_connections,
            service.next_number() == 0,
    {
        NomadCallbackService {
            stopping: false,
            open: Vec::new(),
            next: 0,
            permits: Permits::new(maximum_connections),
        }
    }

    /// Decides what becomes of a connection.
    pub fn accepted(&mut self, accepted: Accepted) -> (step: ListenerStep)
        requires
            old(self).well_formed(),
        ensures
            final(self).well_formed(),
            final(self).maximum() == old(self).maximum(),
            final(self).is_stopping() == old(self).is_stopping(),
            ({
                let served = !old(self).is_stopping() && accepted is Connection
                    && old(self).connections().len() < old(self).maximum();
                &&& step == listener_step(
                    old(self).is_stopping(),
                    old(self).connections().len(),
                    old(self).maximum() as nat,
                    old(self).next_number(),
                    accepted,
                )
                &&& served ==> final(self).connections() == old(self).connections().push(
                    old(self).next_number(),
                )
                &&& served && old(self).next_number() < u64::MAX ==> final(self).next_number()
                    == old(self).next_number() + 1
                &&& !served ==> final(self).connections() == old(self).connections()
                    && final(self).next_number() == old(self).next_number()
            }),
    {
        if self.stopping {
            return ListenerStep::Stop;
        }
        match accepted {
            Accepted::Nothing => ListenerStep::Pause,
            Accepted::Failed(refusal) => ListenerStep::Fail(refusal),
            Accepted::Connection => {
                if !self.permits.acquire() {
                    return ListenerStep::Reject;
                }
                let number: u64 = self.next;
                self.next = self.next.wrapping_add(1);
                self.open.push(number);
                ListenerStep::Serve(number)
            },
        }
    }

    /// A connection has ended: it is no longer open, and its permit is free.
    pub fn finished(&mut self, number: u64)
        requires
            old(self).well_formed(),
        ensures
            final(self).well_formed(),
            final(self).maximum() == old(self).maximum(),
            final(self).is_stopping() == old(self).is_stopping(),
            final(self).next_number() == old(self).next_number(),
            !old(self).connections().contains(number) ==> final(self).connections() == old(self).connections(),
            old(self).connections().contains(number) ==> exists|place: int|
                #![trigger old(self).connections()[place]]
                0 <= place < old(self).connections().len() && old(self).connections()[place]
                    == number && final(self).connections() == old(self).connections().remove(place),
    {
        let ghost before = self.open@;
        let mut i: usize = 0;
        while i < self.open.len()
            invariant
                *self == *old(self),
                self.open@ == before,
                self.well_formed(),
                i <= before.len(),
                forall|j: int| 0 <= j < i ==> before[j] != number,
            decreases before.len() - i,
        {
            if self.open[i] == number {
                let _ = self.open.remove(i);
                self.permits.release();
                assert(before[i as int] == number);
                return;
            }
            i += 1;
        }
    }

    pub fn active_connections(&self) -> (active: usize)
        ensures
            active == self.connections().len(),
    {
        self.open.len()
    }

    /// Says how a shutdown goes on: it waits for the connections to end, but not for ever.
    pub fn shutdown(&mut self, now: u128, deadline: u128) -> (step: DrainStep)
        requires
            old(self).well_formed(),
        ensures
            final(self).well_formed(),
            final(self).is_stopping(),
            final(self).connections() == old(self).connections(),
            final(self).maximum() == old(self).maximum(),
            final(self).next_number() == old(self).next_number(),
            step == drain_step(old(self).connections().len(), now, deadline),
    {
        self.stopping = true;
        if self.open.len() == 0 || now >= deadline {
            DrainStep::CloseAll
        } else {
            DrainStep::Wait
        }
    }
}

/// What a build needs is covered if and only if its derivation and each of its sources are paths of
/// the closure.
pub proof fn needed_paths_are_covered(build: BuildInputs, closure: Seq<PathManifestEntry>)
    ensures
        covers(closure, roots_of(build)) <==> {
            &&& is_path_of(closure, build.derivation_path@)
            &&& forall|i: int|
                0 <= i < build.input_sources@.len() ==> is_path_of(
                    closure,
                    (#[trigger] build.input_sources@[i])@,
                )
        },
{
    let roots = roots_of(build);
    let count = build.input_sources@.len();
    assert(roots.len() == count + 1);
    assert(roots[count as int] == build.derivation_path@);
    assert forall|i: int| 0 <= i < count implies #[trigger] roots[i]
        == build.input_sources@[i]@ by {}
    if covers(closure, roots) {
        assert forall|i: int| 0 <= i < roots.len() implies is_path_of(
            closure,
            #[trigger] roots[i],
        ) by {
            let k = choose|k: int|
                0 <= k < closure.len() && encode_utf8((#[trigger] closure[k]).path@) == roots[i];
            assert(encode_utf8(closure[k].path@) == roots[i]);
        }
        assert(is_path_of(closure, roots[count as int]));
        assert forall|i: int| 0 <= i < count implies is_path_of(
            closure,
            (#[trigger] build.input_sources@[i])@,
        ) by {
            assert(is_path_of(closure, roots[i]));
        }
    }
    if is_path_of(closure, build.derivation_path@) && (forall|i: int|
        0 <= i < count ==> is_path_of(closure, (#[trigger] build.input_sources@[i])@)) {
        assert forall|i: int| 0 <= i < roots.len() implies exists|k: int|
            0 <= k < closure.len() && encode_utf8((#[trigger] closure[k]).path@)
                == #[trigger] roots[i] by {
            if i < count {
                assert(is_path_of(closure, build.input_sources@[i]@));
            }
        }
    }
}

/// A path, given by its bytes, is one of a closure.
pub open spec fn is_path_of(closure: Seq<PathManifestEntry>, path: Seq<u8>) -> bool {
    exists|k: int| 0 <= k < closure.len() && encode_utf8((#[trigger] closure[k]).path@) == path
}

/// The input that is sent for a path is the first with that path, and none is sent for a path that
/// the manifest does not hold.
pub proof fn sent_input_has_the_path(entries: Seq<PathManifestEntry>, path: Seq<char>)
    ensures
        match entry_place(entries, path) {
            Some(place) => 0 <= place < entries.len() && entries[place].path@ == path && forall|
                i: int,
            |
                0 <= i < place ==> (#[trigger] entries[i]).path@ != path,
            None => forall|i: int| 0 <= i < entries.len() ==> (#[trigger] entries[i]).path@ != path,
        },
    decreases entries.len(),
{
    if entries.len() > 0 {
        let others = entries.drop_first();
        sent_input_has_the_path(others, path);
        assert forall|i: int| 0 < i < entries.len() implies #[trigger] entries[i] == others[i
            - 1] by {}
    }
}

/// The gateway is called back at what comes after the authority of its URL, which is the root where
/// nothing comes after it.
pub proof fn callback_path_is_that_of_the_url(
    scheme: Seq<char>,
    authority: Seq<char>,
    path: Seq<char>,
)
    requires
        !scheme.contains(':'),
        !authority.contains('/'),
        path.len() > 0 ==> path[0] == '/',
    ensures
        url_path(scheme + seq![':', '/', '/'] + authority + path) == Some(
            if path.len() > 0 {
                path
            } else {
                "/"@
            },
        ),
{
    let mark = seq![':', '/', '/'];
    let url = scheme + mark + authority + path;
    text::position_is_first(url, mark);
    assert(url.skip(scheme.len() as int).subrange(0, 3) =~= mark);
    assert(mark.is_prefix_of(url.skip(scheme.len() as int)));
    let place = text::position(url, mark)->0;
    if place < scheme.len() {
        assert(url.skip(place).subrange(0, 3)[0] == ':');
        assert(url[place] == scheme[place]);
        assert(scheme.contains(':'));
    }
    assert(place == scheme.len());
    let rest = url.skip(place + 3);
    assert(rest =~= authority + path);
    let slash = seq!['/'];
    text::position_is_first(rest, slash);
    if path.len() > 0 {
        assert(rest.skip(authority.len() as int).subrange(0, 1) =~= slash);
        assert(slash.is_prefix_of(rest.skip(authority.len() as int)));
    }
    if let Some(offset) = text::position(rest, slash) {
        assert(rest.skip(offset).subrange(0, 1)[0] == '/');
        assert(rest[offset] == '/');
        if offset < authority.len() {
            assert(authority[offset] == '/');
            assert(authority.contains('/'));
        }
        assert(rest.skip(authority.len() as int) =~= path);
    }
}

/// The policy for a worker that presents a token, where its backend is set up for tokens.
pub open spec fn is_token_policy(
    policy: Option<WorkloadIdentityPolicy>,
    backend: NomadBackendConfig,
    callback: NomadCallbackConfig,
    authentication: Authentication,
) -> bool {
    match backend.transfer_authentication {
        NomadTransferAuthentication::WorkloadIdentity {
            issuer,
            jwks_url,
            audience,
            ca_certificate_file,
        } => {
            &&& policy is Some
            &&& policy->0.task@ == "build"@
            &&& policy->0.issuer == issuer
            &&& policy->0.jwks_url == jwks_url
            &&& policy->0.audience == audience
            &&& policy->0.namespace == backend.namespace
            &&& policy->0.job_id == authentication.job_id
            &&& policy->0.ca_certificate_file == ca_certificate_file
            &&& policy->0.request_timeout == callback.authentication_request_timeout
            &&& policy->0.maximum_jwks_bytes == callback.maximum_jwks_bytes
            &&& policy->0.clock_skew == backend.transfer_limits.clock_skew
        },
        NomadTransferAuthentication::Hmac { .. } => policy is None,
    }
}

/// The policy for a worker that signs with a shared secret, where its backend is set up for one.
pub open spec fn is_secret_policy(
    policy: Option<HmacVerificationPolicy>,
    backend: NomadBackendConfig,
    callback: NomadCallbackConfig,
    authentication: Authentication,
    secret: Seq<u8>,
) -> bool {
    match backend.transfer_authentication {
        NomadTransferAuthentication::Hmac { key_id, .. } => {
            &&& policy is Some
            &&& policy->0.key_id == key_id
            &&& policy->0.secret@ == secret
            &&& policy->0.backend == authentication.backend
            &&& policy->0.namespace == backend.namespace
            &&& policy->0.job_id == authentication.job_id
            &&& policy->0.shared_build_digest == authentication.shared_build_digest
            &&& policy->0.task@ == "build"@
            &&& policy->0.clock_skew == backend.transfer_limits.clock_skew
            &&& policy->0.nonce_retention == backend.transfer_limits.nonce_retention
            &&& policy->0.maximum_retained_nonces == callback.maximum_retained_nonces
        },
        NomadTransferAuthentication::WorkloadIdentity { .. } => policy is None,
    }
}

/// A worker is checked in the one way that its backend is set up for, against the job that it says
/// it is, the namespace of the backend and the task that builds.
pub proof fn worker_is_checked_in_one_way(
    token: Option<WorkloadIdentityPolicy>,
    shared: Option<HmacVerificationPolicy>,
    backend: NomadBackendConfig,
    callback: NomadCallbackConfig,
    authentication: Authentication,
    secret: Seq<u8>,
)
    requires
        is_token_policy(token, backend, callback, authentication),
        is_secret_policy(shared, backend, callback, authentication, secret),
    ensures
        token is Some <==> shared is None,
        token is Some <==> backend.transfer_authentication is WorkloadIdentity,
        token matches Some(policy) ==> {
            &&& policy.job_id@ == authentication.job_id@
            &&& policy.namespace@ == backend.namespace@
            &&& policy.task@ == "build"@
            &&& policy.issuer@ == backend.transfer_authentication->issuer@
            &&& policy.jwks_url@ == backend.transfer_authentication->jwks_url@
            &&& policy.audience@ == backend.transfer_authentication->audience@
            &&& policy.clock_skew == backend.transfer_limits.clock_skew
        },
        shared matches Some(policy) ==> {
            &&& policy.job_id@ == authentication.job_id@
            &&& policy.namespace@ == backend.namespace@
            &&& policy.task@ == "build"@
            &&& policy.backend@ == authentication.backend@
            &&& policy.shared_build_digest@ == authentication.shared_build_digest@
            &&& policy.key_id@ == backend.transfer_authentication->key_id@
            &&& policy.secret@ == secret
            &&& policy.clock_skew == backend.transfer_limits.clock_skew
            &&& policy.nonce_retention == backend.transfer_limits.nonce_retention
            &&& policy.maximum_retained_nonces == callback.maximum_retained_nonces
        },
{
}

/// What is done when a connection was looked for.
pub open spec fn listener_step(
    stopping: bool,
    open: nat,
    maximum: nat,
    next: u64,
    accepted: Accepted,
) -> ListenerStep {
    if stopping {
        ListenerStep::Stop
    } else {
        match accepted {
            Accepted::Nothing => ListenerStep::Pause,
            Accepted::Failed(refusal) => ListenerStep::Fail(refusal),
            Accepted::Connection => if open < maximum {
                ListenerStep::Serve(next)
            } else {
                ListenerStep::Reject
            },
        }
    }
}

/// How a shutdown goes on.
pub open spec fn drain_step(open: nat, now: u128, deadline: u128) -> DrainStep {
    if open == 0 || now >= deadline {
        DrainStep::CloseAll
    } else {
        DrainStep::Wait
    }
}

/// A connection that came is served while fewer than the most are open, and rejected otherwise; once
/// the service stops, nothing is served or rejected any more.
pub proof fn connections_are_served_up_to_the_limit(
    stopping: bool,
    open: nat,
    maximum: nat,
    next: u64,
    accepted: Accepted,
)
    ensures
        ({
            let step = listener_step(stopping, open, maximum, next, accepted);
            &&& step is Stop <==> stopping
            &&& step is Serve <==> !stopping && accepted is Connection && open < maximum
            &&& step is Reject <==> !stopping && accepted is Connection && open >= maximum
            &&& step is Pause <==> !stopping && accepted is Nothing
            &&& step is Fail <==> !stopping && accepted is Failed
            &&& step matches ListenerStep::Serve(number) ==> number == next && open + 1 <= maximum
            &&& step matches ListenerStep::Fail(refusal) ==> accepted == Accepted::Failed(refusal)
        }),
{
}

/// A shutdown waits for open connections until its deadline, and not for none.
pub proof fn shutdown_waits_for_open_connections(open: nat, now: u128, deadline: u128)
    ensures
        drain_step(open, now, deadline) is Wait <==> open > 0 && now < deadline,
        drain_step(open, now, deadline) is CloseAll <==> open == 0 || deadline <= now,
{
}

} // verus!
