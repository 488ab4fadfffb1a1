//! Frames exchanged between the gateway and a Nomad worker, and the order in which a session
//! lets them pass.

use crate::bytes;
use crate::fault::{self, invalid_data, invalid_input, Fault, FaultKind};
use vstd::prelude::*;

verus! {

/// The version that every frame carries.
pub const PROTOCOL_VERSION: u16 = 1;

/// The length of a frame before its metadata.
pub const HEADER_BYTES: usize = 16;

/// What a frame holds.
#[derive(Clone, Copy, Debug, PartialEq, Eq, Structural)]
pub enum FrameKind {
    Authenticate,
    InputManifest,
    ValidPaths,
    InputRequest,
    InputNar,
    BuildStarted,
    LogChunk,
    OutputMetadata,
    OutputNar,
    OutputReceipt,
    BuildResult,
}

/// Which side sends a frame.
#[derive(Clone, Copy, Debug, PartialEq, Eq, Structural)]
pub enum Direction {
    WorkerToGateway,
    GatewayToWorker,
}

/// How far a session has come.
#[derive(Clone, Copy, Debug, PartialEq, Eq, Structural)]
pub enum Phase {
    AwaitingAuthentication,
    AwaitingManifest,
    ResolvingInputs,
    Building,
    CollectingOutputs,
    Complete,
}

/// The phase that a frame leads to, where the frame is in order.
pub open spec fn next_phase(phase: Phase, direction: Direction, kind: FrameKind) -> Option<Phase> {
    match direction {
        Direction::WorkerToGateway => match (phase, kind) {
            (Phase::AwaitingAuthentication, FrameKind::Authenticate) => Some(
                Phase::AwaitingManifest,
            ),
            (Phase::ResolvingInputs, FrameKind::ValidPaths | FrameKind::InputRequest) => Some(
                Phase::ResolvingInputs,
            ),
            (Phase::ResolvingInputs, FrameKind::BuildStarted) => Some(Phase::Building),
            (Phase::Building, FrameKind::LogChunk) => Some(Phase::Building),
            (Phase::Building, FrameKind::OutputMetadata) => Some(Phase::CollectingOutputs),
            (Phase::CollectingOutputs, FrameKind::OutputMetadata | FrameKind::OutputNar) => Some(
                Phase::CollectingOutputs,
            ),
            (Phase::CollectingOutputs, FrameKind::BuildResult) => Some(Phase::Complete),
            _ => None,
        },
        Direction::GatewayToWorker => match (phase, kind) {
            (Phase::AwaitingManifest, FrameKind::InputManifest) => Some(Phase::ResolvingInputs),
            (Phase::ResolvingInputs, FrameKind::InputNar) => Some(Phase::ResolvingInputs),
            (Phase::CollectingOutputs, FrameKind::OutputReceipt) => Some(Phase::CollectingOutputs),
            _ => None,
        },
    }
}

/// One transfer session with a worker.
#[derive(Clone, Copy, Debug, PartialEq, Eq, Structural)]
pub struct ProtocolSession {
    phase: Phase,
}

impl View for ProtocolSession {
    type V = Phase;

    closed spec fn view(&self) -> Phase {
        self.phase
    }
}

impl ProtocolSession {
    /// Starts a session, which waits for the worker to authenticate.
    pub fn new() -> (session: Self)
        ensures
            session@ == Phase::AwaitingAuthentication,
    {
        ProtocolSession { phase: Phase::AwaitingAuthentication }
    }

    /// Takes up a session in the phase that it had reached.
    pub fn resume(phase: Phase) -> (session: Self)
        ensures
            session@ == phase,
    {
        ProtocolSession { phase }
    }

    /// How far the session has come.
    pub fn phase(&self) -> (phase: Phase)
        ensures
            phase == self@,
    {
        self.phase
    }

    /// Lets a frame pass if it is in order; a frame out of order changes nothing.
    pub fn accept(&mut self, direction: Direction, kind: FrameKind) -> (accepted: Result<(), Fault>)
        ensures
            match next_phase(old(self)@, direction, kind) {
                Some(next) => accepted is Ok && final(self)@ == next,
                None => accepted == Err::<(), Fault>(
                    fault::data_fault("Nomad transfer frame is invalid for protocol phase"),
                ) && *final(self) == *old(self),
            },
    {
        let next = match (self.phase, direction, kind) {
            (Phase::AwaitingAuthentication, Direction::WorkerToGateway, FrameKind::Authenticate) => {
                Phase::AwaitingManifest
            },
            (Phase::AwaitingManifest, Direction::GatewayToWorker, FrameKind::InputManifest) => {
                Phase::ResolvingInputs
            },
            (Phase::ResolvingInputs, Direction::WorkerToGateway, FrameKind::ValidPaths)
            | (Phase::ResolvingInputs, Direction::WorkerToGateway, FrameKind::InputRequest)
            | (Phase::ResolvingInputs, Direction::GatewayToWorker, FrameKind::InputNar) => {
                Phase::ResolvingInputs
            },
            (Phase::ResolvingInputs, Direction::WorkerToGateway, FrameKind::BuildStarted) => {
                Phase::Building
            },
            (Phase::Building, Direction::WorkerToGateway, FrameKind::LogChunk) => Phase::Building,
            (Phase::Building, Direction::WorkerToGateway, FrameKind::OutputMetadata) => {
                Phase::CollectingOutputs
            },
            (Phase::CollectingOutputs, Direction::WorkerToGateway, FrameKind::OutputMetadata)
            | (Phase::CollectingOutputs, Direction::WorkerToGateway, FrameKind::OutputNar)
            | (Phase::CollectingOutputs, Direction::GatewayToWorker, FrameKind::OutputReceipt) => {
                Phase::CollectingOutputs
            },
            (Phase::CollectingOutputs, Direction::WorkerToGateway, FrameKind::BuildResult) => {
                Phase::Complete
            },
            _ => {
                return Err(invalid_data("Nomad transfer frame is invalid for protocol phase"));
            },
        };
        self.phase = next;
        Ok(())
    }

    /// Tells whether the worker has reported its result.
    pub fn is_complete(self) -> (complete: bool)
        ensures
            complete == (self@ == Phase::Complete),
    {
        self.phase == Phase::Complete
    }
}

impl Default for ProtocolSession {
    fn default() -> (session: Self)
        ensures
            session@ == Phase::AwaitingAuthentication,
    {
        ProtocolSession::new()
    }
}

/// The phase that a run of frames leads to from a phase, where every frame is in order.
pub open spec fn phase_after(phase: Phase, frames: Seq<(Direction, FrameKind)>) -> Option<Phase>
    decreases frames.len(),
{
    if frames.len() == 0 {
        Some(phase)
    } else {
        match phase_after(phase, frames.drop_last()) {
            Some(reached) => next_phase(reached, frames.last().0, frames.last().1),
            None => None,
        }
    }
}

/// The frames that a session has seen by the time it is in a phase.
pub open spec fn milestones(phase: Phase, frames: Seq<(Direction, FrameKind)>) -> bool {
    let manifest = (Direction::GatewayToWorker, FrameKind::InputManifest);
    let started = (Direction::WorkerToGateway, FrameKind::BuildStarted);
    let metadata = (Direction::WorkerToGateway, FrameKind::OutputMetadata);
    &&& phase == Phase::AwaitingAuthentication <==> frames.len() == 0
    &&& frames.len() > 0 ==> frames[0] == (Direction::WorkerToGateway, FrameKind::Authenticate)
    &&& phase == Phase::AwaitingManifest ==> frames.len() == 1
    &&& phase !is AwaitingAuthentication && phase !is AwaitingManifest ==> frames.len() > 1
        && frames[1] == manifest
    &&& phase is Building || phase is CollectingOutputs || phase is Complete ==> exists|i: int|
        1 < i < frames.len() && #[trigger] frames[i] == started
    &&& phase is CollectingOutputs || phase is Complete ==> exists|i: int, j: int|
        1 < i < j < frames.len() && #[trigger] frames[i] == started && #[trigger] frames[j]
            == metadata
    &&& phase is Complete ==> frames.last() == (
        Direction::WorkerToGateway,
        FrameKind::BuildResult,
    ) && frames.last() != metadata
}

/// A session completes only after authentication, the manifest, the start of the build and some
/// output metadata, in this order, and the result of the build is its last frame.
pub proof fn session_passes_every_milestone(frames: Seq<(Direction, FrameKind)>)
    requires
        phase_after(Phase::AwaitingAuthentication, frames) is Some,
    ensures
        milestones(phase_after(Phase::AwaitingAuthentication, frames)->0, frames),
    decreases frames.len(),
{
    if frames.len() > 0 {
        let before = frames.drop_last();
        session_passes_every_milestone(before);
        let from = phase_after(Phase::AwaitingAuthentication, before)->0;
        let to = phase_after(Phase::AwaitingAuthentication, frames)->0;
        let started = (Direction::WorkerToGateway, FrameKind::BuildStarted);
        let metadata = (Direction::WorkerToGateway, FrameKind::OutputMetadata);
        assert(forall|i: int| 0 <= i < before.len() ==> before[i] == frames[i]);
        if from is Building || from is CollectingOutputs {
            let i = choose|i: int| 1 < i < before.len() && #[trigger] before[i] == started;
            assert(frames[i] == started);
            if to is CollectingOutputs && from is Building {
                assert(frames[frames.len() - 1] == metadata);
            }
        }
        if from is CollectingOutputs {
            let (i, j) = choose|i: int, j: int|
                1 < i < j < before.len() && #[trigger] before[i] == started && #[trigger] before[j]
                    == metadata;
            assert(frames[i] == started && frames[j] == metadata);
        }
        if to is Building && from is ResolvingInputs {
            assert(frames[frames.len() - 1] == started);
        }
    }
}

/// A frame by which inputs are resolved.
pub open spec fn is_input(frame: (Direction, FrameKind)) -> bool {
    ||| frame == (Direction::WorkerToGateway, FrameKind::ValidPaths)
    ||| frame == (Direction::WorkerToGateway, FrameKind::InputRequest)
    ||| frame == (Direction::GatewayToWorker, FrameKind::InputNar)
}

/// A frame by which outputs are collected.
pub open spec fn is_output(frame: (Direction, FrameKind)) -> bool {
    ||| frame == (Direction::WorkerToGateway, FrameKind::OutputMetadata)
    ||| frame == (Direction::WorkerToGateway, FrameKind::OutputNar)
    ||| frame == (Direction::GatewayToWorker, FrameKind::OutputReceipt)
}

/// The first so many frames are the authentication, the manifest and then only inputs.
pub open spec fn resolves(frames: Seq<(Direction, FrameKind)>, count: int) -> bool {
    &&& 2 <= count <= frames.len()
    &&& frames[0] == (Direction::WorkerToGateway, FrameKind::Authenticate)
    &&& frames[1] == (Direction::GatewayToWorker, FrameKind::InputManifest)
    &&& forall|k: int| 2 <= k < count ==> is_input(#[trigger] frames[k])
}

/// The first so many frames resolve inputs up to a place, where the build starts, and then carry
/// only its log.
pub open spec fn builds(frames: Seq<(Direction, FrameKind)>, start: int, count: int) -> bool {
    &&& resolves(frames, start)
    &&& start < count <= frames.len()
    &&& frames[start] == (Direction::WorkerToGateway, FrameKind::BuildStarted)
    &&& forall|k: int|
        start < k < count ==> #[trigger] frames[k] == (
            Direction::WorkerToGateway,
            FrameKind::LogChunk,
        )
}

/// The first so many frames build up to a place, where the metadata of an output comes, and then
/// only collect outputs.
pub open spec fn collects(
    frames: Seq<(Direction, FrameKind)>,
    start: int,
    first: int,
    count: int,
) -> bool {
    &&& builds(frames, start, first)
    &&& first < count <= frames.len()
    &&& frames[first] == (Direction::WorkerToGateway, FrameKind::OutputMetadata)
    &&& forall|k: int| first < k < count ==> is_output(#[trigger] frames[k])
}

/// Frames are in order up to the collection of outputs.
pub open spec fn are_collected(frames: Seq<(Direction, FrameKind)>) -> bool {
    exists|start: int, first: int| #[trigger]
        collects(frames, start, first, frames.len() as int)
}

/// Frames are in order up to a phase.
pub open spec fn are_in_order(phase: Phase, frames: Seq<(Direction, FrameKind)>) -> bool {
    let length = frames.len() as int;
    match phase {
        Phase::AwaitingAuthentication => length == 0,
        Phase::AwaitingManifest => length == 1 && frames[0] == (
            Direction::WorkerToGateway,
            FrameKind::Authenticate,
        ),
        Phase::ResolvingInputs => resolves(frames, length),
        Phase::Building => exists|start: int| builds(frames, start, frames.len() as int),
        Phase::CollectingOutputs => are_collected(frames),
        Phase::Complete => length > 0 && frames.last() == (
            Direction::WorkerToGateway,
            FrameKind::BuildResult,
        ) && are_collected(frames.drop_last()),
    }
}

proof fn order_leads_to_the_phase(phase: Phase, frames: Seq<(Direction, FrameKind)>)
    requires
        are_in_order(phase, frames),
    ensures
        phase_after(Phase::AwaitingAuthentication, frames) == Some(phase),
    decreases frames.len(),
{
    if frames.len() > 0 {
        let before = frames.drop_last();
        let length = frames.len() as int;
        assert(forall|k: int| 0 <= k < before.len() ==> before[k] == frames[k]);
        match phase {
            Phase::AwaitingAuthentication => {},
            Phase::AwaitingManifest => {
                order_leads_to_the_phase(Phase::AwaitingAuthentication, before);
            },
            Phase::ResolvingInputs => {
                if length == 2 {
                    order_leads_to_the_phase(Phase::AwaitingManifest, before);
                } else {
                    assert(is_input(frames[length - 1]));
                    order_leads_to_the_phase(Phase::ResolvingInputs, before);
                }
            },
            Phase::Building => {
                let start = choose|start: int| builds(frames, start, frames.len() as int);
                if start == length - 1 {
                    assert(resolves(before, length - 1));
                    order_leads_to_the_phase(Phase::ResolvingInputs, before);
                } else {
                    assert(resolves(before, start));
                    assert(builds(before, start, length - 1));
                    order_leads_to_the_phase(Phase::Building, before);
                }
            },
            Phase::CollectingOutputs => {
                let (start, first) = choose|start: int, first: int| #[trigger]
                    collects(frames, start, first, frames.len() as int);
                assert(resolves(before, start));
                assert(builds(before, start, first));
                if first == length - 1 {
                    order_leads_to_the_phase(Phase::Building, before);
                } else {
                    assert(is_output(frames[length - 1]));
                    assert(collects(before, start, first, length - 1));
                    order_leads_to_the_phase(Phase::CollectingOutputs, before);
                }
            },
            Phase::Complete => {
                order_leads_to_the_phase(Phase::CollectingOutputs, before);
            },
        }
    }
}

proof fn phase_needs_the_order(frames: Seq<(Direction, FrameKind)>)
    requires
        phase_after(Phase::AwaitingAuthentication, frames) is Some,
    ensures
        are_in_order(phase_after(Phase::AwaitingAuthentication, frames)->0, frames),
    decreases frames.len(),
{
    if frames.len() > 0 {
        let before = frames.drop_last();
        let length = frames.len() as int;
        phase_needs_the_order(before);
        assert(forall|k: int| 0 <= k < before.len() ==> before[k] == frames[k]);
        let from = phase_after(Phase::AwaitingAuthentication, before)->0;
        let to = phase_after(Phase::AwaitingAuthentication, frames)->0;
        match from {
            Phase::ResolvingInputs => {
                if to is Building {
                    assert(resolves(frames, length - 1));
                    assert(builds(frames, length - 1, length));
                } else {
                    assert(is_input(frames[length - 1]));
                }
            },
            Phase::Building => {
                let start = choose|start: int| builds(before, start, before.len() as int);
                assert(resolves(frames, start));
                if to is CollectingOutputs {
                    assert(builds(frames, start, length - 1));
                    assert(collects(frames, start, length - 1, length));
                } else {
                    assert(builds(frames, start, length));
                }
            },
            Phase::CollectingOutputs => {
                if !(to is Complete) {
                    let (start, first) = choose|start: int, first: int| #[trigger]
                        collects(before, start, first, before.len() as int);
                    assert(resolves(frames, start));
                    assert(builds(frames, start, first));
                    assert(is_output(frames[length - 1]));
                    assert(collects(frames, start, first, length));
                }
            },
            _ => {},
        }
    }
}

/// A session takes exactly the frames that are in order. To complete, these are the
/// authentication, the manifest, any frames by which inputs are resolved, the start of the build,
/// any of its log, the metadata of an output, any frames by which outputs are collected, and the
/// result of the build.
pub proof fn frames_are_taken_in_order(phase: Phase, frames: Seq<(Direction, FrameKind)>)
    ensures
        phase_after(Phase::AwaitingAuthentication, frames) == Some(phase) <==> are_in_order(
            phase,
            frames,
        ),
{
    if phase_after(Phase::AwaitingAuthentication, frames) is Some {
        phase_needs_the_order(frames);
    }
    if are_in_order(phase, frames) {
        order_leads_to_the_phase(phase, frames);
    }
}

/// A completed session lets no frame pass.
pub proof fn complete_session_is_closed(direction: Direction, kind: FrameKind)
    ensures
        next_phase(Phase::Complete, direction, kind) is None,
{
}

impl FrameKind {
    /// The number of a kind on the wire.
    pub open spec fn spec_code(self) -> u16 {
        match self {
            FrameKind::Authenticate => 1,
            FrameKind::InputManifest => 2,
            FrameKind::ValidPaths => 3,
            FrameKind::InputRequest => 4,
            FrameKind::InputNar => 5,
            FrameKind::BuildStarted => 6,
            FrameKind::LogChunk => 7,
            FrameKind::OutputMetadata => 8,
            FrameKind::OutputNar => 9,
            FrameKind::OutputReceipt => 10,
            FrameKind::BuildResult => 11,
        }
    }

    /// The number of a kind on the wire.
    pub fn code(self) -> (code: u16)
        ensures
            code == self.spec_code(),
            1 <= code <= 11,
    {
        match self {
            FrameKind::Authenticate => 1,
            FrameKind::InputManifest => 2,
            FrameKind::ValidPaths => 3,
            FrameKind::InputRequest => 4,
            FrameKind::InputNar => 5,
            FrameKind::BuildStarted => 6,
            FrameKind::LogChunk => 7,
            FrameKind::OutputMetadata => 8,
            FrameKind::OutputNar => 9,
            FrameKind::OutputReceipt => 10,
            FrameKind::BuildResult => 11,
        }
    }

    /// The kind with a number, for each of the numbers in use.
    pub fn from_code(code: u16) -> (kind: Result<Self, Fault>)
        ensures
            1 <= code <= 11 ==> kind is Ok && kind->Ok_0.spec_code() == code,
            !(1 <= code <= 11) ==> kind == Err::<Self, Fault>(
                fault::data_fault("Nomad transfer frame kind is unsupported"),
            ),
    {
        match code {
            1 => Ok(FrameKind::Authenticate),
            2 => Ok(FrameKind::InputManifest),
            3 => Ok(FrameKind::ValidPaths),
            4 => Ok(FrameKind::InputRequest),
            5 => Ok(FrameKind::InputNar),
            6 => Ok(FrameKind::BuildStarted),
            7 => Ok(FrameKind::LogChunk),
            8 => Ok(FrameKind::OutputMetadata),
            9 => Ok(FrameKind::OutputNar),
            10 => Ok(FrameKind::OutputReceipt),
            11 => Ok(FrameKind::BuildResult),
            _ => Err(invalid_data("Nomad transfer frame kind is unsupported")),
        }
    }
}

/// No two kinds share a number.
pub proof fn codes_are_distinct(left: FrameKind, right: FrameKind)
    ensures
        left.spec_code() == right.spec_code() ==> left == right,
{
}

/// How large the parts of a frame may be.
#[derive(Clone, Copy, Debug, PartialEq, Eq, Structural)]
pub struct ProtocolLimits {
    maximum_metadata_bytes: usize,
    maximum_payload_bytes: usize,
}

impl ProtocolLimits {
    pub closed spec fn metadata_limit(self) -> usize {
        self.maximum_metadata_bytes
    }

    pub closed spec fn payload_limit(self) -> usize {
        self.maximum_payload_bytes
    }

    pub fn new(maximum_metadata_bytes: usize, maximum_payload_bytes: usize) -> (limits: Self)
        ensures
            limits.metadata_limit() == maximum_metadata_bytes,
            limits.payload_limit() == maximum_payload_bytes,
    {
        ProtocolLimits { maximum_metadata_bytes, maximum_payload_bytes }
    }
}

/// A unit of the transfer protocol.
#[derive(Clone, Debug)]
pub struct Frame {
    kind: FrameKind,
    metadata: Vec<u8>,
    payload: Vec<u8>,
}

/// What a frame carries.
pub struct FrameContent {
    pub kind: FrameKind,
    pub metadata: Seq<u8>,
    pub payload: Seq<u8>,
}

impl View for Frame {
    type V = FrameContent;

    closed spec fn view(&self) -> FrameContent {
        FrameContent { kind: self.kind, metadata: self.metadata@, payload: self.payload@ }
    }
}

impl Frame {
    pub fn new(kind: FrameKind, metadata: Vec<u8>, payload: Vec<u8>) -> (frame: Self)
        ensures
            frame@ == (FrameContent { kind, metadata: metadata@, payload: payload@ }),
    {
        Frame { kind, metadata, payload }
    }

    pub fn kind(&self) -> (kind: FrameKind)
        ensures
            kind == self@.kind,
    {
        self.kind
    }

    pub fn metadata(&self) -> (metadata: &[u8])
        ensures
            metadata@ == self@.metadata,
    {
        self.metadata.as_slice()
    }

    pub fn payload(&self) -> (payload: &[u8])
        ensures
            payload@ == self@.payload,
    {
        self.payload.as_slice()
    }
}

/// Checks metadata that was made into bytes: `None` where it could not be.
pub fn encode_metadata(encoded: Option<Vec<u8>>, maximum_bytes: usize) -> (checked: Result<
    Vec<u8>,
    Fault,
>)
    ensures
        match encoded {
            None => checked == Err::<Vec<u8>, Fault>(
                fault::input_fault("Nomad transfer frame metadata is invalid"),
            ),
            Some(bytes) => if bytes@.len() > maximum_bytes {
                checked == Err::<Vec<u8>, Fault>(
                    fault::input_fault("Nomad transfer frame metadata exceeds limit"),
                )
            } else {
                checked == Ok::<Vec<u8>, Fault>(bytes)
            },
        },
{
    match encoded {
        None => Err(invalid_input("Nomad transfer frame metadata is invalid")),
        Some(bytes) => {
            if bytes.len() > maximum_bytes {
                return Err(invalid_input("Nomad transfer frame metadata exceeds limit"));
            }
            Ok(bytes)
        },
    }
}

/// Reads metadata with a parser, which sees only bytes within the limit.
pub fn decode_metadata<T, F: FnOnce(&[u8]) -> Option<T>>(
    encoded: &[u8],
    maximum_bytes: usize,
    parse: F,
) -> (decoded: Result<T, Fault>)
    requires
        encoded@.len() <= maximum_bytes ==> parse.requires((encoded,)),
    ensures
        encoded@.len() > maximum_bytes ==> decoded == Err::<T, Fault>(
            fault::data_fault("Nomad transfer frame metadata exceeds limit"),
        ),
        encoded@.len() <= maximum_bytes ==> match decoded {
            Ok(value) => parse.ensures((encoded,), Some(value)),
            Err(fault) => parse.ensures((encoded,), None) && fault == fault::data_fault(
                "Nomad transfer frame metadata is invalid",
            ),
        },
{
    if encoded.len() > maximum_bytes {
        return Err(invalid_data("Nomad transfer frame metadata exceeds limit"));
    }
    match parse(encoded) {
        Some(value) => Ok(value),
        None => Err(invalid_data("Nomad transfer frame metadata is invalid")),
    }
}

/// The fault of lengths over a limit; the metadata is looked at first.
pub open spec fn length_fault(
    metadata_length: int,
    payload_length: int,
    limits: ProtocolLimits,
    kind: FaultKind,
) -> Option<Fault> {
    if metadata_length > limits.metadata_limit() {
        Some(Fault { kind, message: "Nomad transfer frame metadata exceeds limit" })
    } else if payload_length > limits.payload_limit() {
        Some(Fault { kind, message: "Nomad transfer frame payload exceeds limit" })
    } else {
        None
    }
}

fn validate_lengths(
    metadata_length: usize,
    payload_length: usize,
    limits: ProtocolLimits,
    wire_input: bool,
) -> (checked: Result<(), Fault>)
    ensures
        match length_fault(
            metadata_length as int,
            payload_length as int,
            limits,
            if wire_input {
                FaultKind::InvalidData
            } else {
                FaultKind::InvalidInput
            },
        ) {
            Some(fault) => checked == Err::<(), Fault>(fault),
            None => checked is Ok,
        },
{
    let kind = if wire_input {
        FaultKind::InvalidData
    } else {
        FaultKind::InvalidInput
    };
    if metadata_length > limits.maximum_metadata_bytes {
        return Err(Fault { kind, message: "Nomad transfer frame metadata exceeds limit" });
    }
    if payload_length > limits.maximum_payload_bytes {
        return Err(Fault { kind, message: "Nomad transfer frame payload exceeds limit" });
    }
    Ok(())
}

/// The four bytes that every frame begins with: `TLNW`.
pub open spec fn magic() -> Seq<u8> {
    seq![0x54u8, 0x4cu8, 0x4eu8, 0x57u8]
}

/// The bytes of a frame.
pub open spec fn frame_bytes(content: FrameContent) -> Seq<u8> {
    magic() + bytes::big_endian_16(PROTOCOL_VERSION) + bytes::big_endian_16(content.kind.spec_code())
        + bytes::big_endian_32(content.metadata.len() as u32) + bytes::big_endian_32(content.payload.len() as u32)
        + content.metadata + content.payload
}

/// The fault of a frame that cannot be written.
pub open spec fn write_fault(content: FrameContent, limits: ProtocolLimits) -> Option<Fault> {
    match length_fault(
        content.metadata.len() as int,
        content.payload.len() as int,
        limits,
        FaultKind::InvalidInput,
    ) {
        Some(fault) => Some(fault),
        None => if content.metadata.len() > u32::MAX {
            Some(fault::input_fault("Nomad transfer frame metadata exceeds limit"))
        } else if content.payload.len() > u32::MAX {
            Some(fault::input_fault("Nomad transfer frame payload exceeds limit"))
        } else {
            None
        },
    }
}

/// Appends a frame to the output; a frame over a limit leaves the output as it was.
pub fn write_frame(output: &mut Vec<u8>, frame: &Frame, limits: ProtocolLimits) -> (written: Result<
    (),
    Fault,
>)
    ensures
        match write_fault(frame@, limits) {
            Some(fault) => written == Err::<(), Fault>(fault) && final(output)@ == old(output)@,
            None => written is Ok && final(output)@ == old(output)@ + frame_bytes(frame@),
        },
{
    validate_lengths(frame.metadata.len(), frame.payload.len(), limits, false)?;
    if frame.metadata.len() > u32::MAX as usize {
        return Err(invalid_input("Nomad transfer frame metadata exceeds limit"));
    }
    if frame.payload.len() > u32::MAX as usize {
        return Err(invalid_input("Nomad transfer frame payload exceeds limit"));
    }
    output.push(0x54);
    output.push(0x4c);
    output.push(0x4e);
    output.push(0x57);
    assert(output@ =~= old(output)@ + magic());
    bytes::push_big_endian_16(output, PROTOCOL_VERSION);
    bytes::push_big_endian_16(output, frame.kind.code());
    bytes::push_big_endian_32(output, frame.metadata.len() as u32);
    bytes::push_big_endian_32(output, frame.payload.len() as u32);
    bytes::append_bytes(output, frame.metadata.as_slice());
    bytes::append_bytes(output, frame.payload.as_slice());
    assert(output@ =~= old(output)@ + frame_bytes(frame@));
    Ok(())
}

/// What the first bytes of a frame announce.
#[derive(Clone, Copy, Debug, PartialEq, Eq, Structural)]
pub struct FrameHeader {
    pub kind: FrameKind,
    pub metadata_length: usize,
    pub payload_length: usize,
}

/// The fault of the first bytes of a frame, where they are not a header within the limits.
pub open spec fn header_fault(header: Seq<u8>, limits: ProtocolLimits) -> Option<Fault> {
    let code = bytes::number_16(header[6], header[7]);
    if header.take(4) != magic() {
        Some(fault::data_fault("Nomad transfer frame magic is invalid"))
    } else if bytes::number_16(header[4], header[5]) != PROTOCOL_VERSION {
        Some(fault::data_fault("Nomad transfer protocol version is unsupported"))
    } else if !(1 <= code <= 11) {
        Some(fault::data_fault("Nomad transfer frame kind is unsupported"))
    } else {
        length_fault(
            bytes::number_32(header[8], header[9], header[10], header[11]) as int,
            bytes::number_32(header[12], header[13], header[14], header[15]) as int,
            limits,
            FaultKind::InvalidData,
        )
    }
}

/// Reads the first bytes of a frame.
pub fn read_header(header: &[u8], limits: ProtocolLimits) -> (read: Result<FrameHeader, Fault>)
    requires
        header@.len() == HEADER_BYTES,
    ensures
        match read {
            Err(fault) => header_fault(header@, limits) == Some(fault),
            Ok(announced) => {
                &&& header_fault(header@, limits) is None
                &&& announced.kind.spec_code() == bytes::number_16(header@[6], header@[7])
                &&& announced.metadata_length == bytes::number_32(
                    header@[8],
                    header@[9],
                    header@[10],
                    header@[11],
                )
                &&& announced.payload_length == bytes::number_32(
                    header@[12],
                    header@[13],
                    header@[14],
                    header@[15],
                )
            },
        },
{
    proof {
        let start = header@.take(4);
        if start != magic() {
            assert(!(start =~= magic()));
        }
    }
    if header[0] != 0x54 || header[1] != 0x4c || header[2] != 0x4e || header[3] != 0x57 {
        return Err(invalid_data("Nomad transfer frame magic is invalid"));
    }
    assert(header@.take(4) =~= magic());
    if bytes::join_16(header[4], header[5]) != PROTOCOL_VERSION {
        return Err(invalid_data("Nomad transfer protocol version is unsupported"));
    }
    let kind = match FrameKind::from_code(bytes::join_16(header[6], header[7])) {
        Ok(kind) => kind,
        Err(fault) => {
            return Err(fault);
        },
    };
    let metadata_length = bytes::join_32(header[8], header[9], header[10], header[11]) as usize;
    let payload_length = bytes::join_32(header[12], header[13], header[14], header[15]) as usize;
    match validate_lengths(metadata_length, payload_length, limits, true) {
        Ok(()) => Ok(FrameHeader { kind, metadata_length, payload_length }),
        Err(fault) => Err(fault),
    }
}

/// The fault of input that ends before the frame does.
pub open spec fn truncated_fault() -> Fault {
    Fault { kind: FaultKind::UnexpectedEof, message: "failed to fill whole buffer" }
}

/// The frame at the start of the input and the number of bytes that it takes.
pub open spec fn decoded_frame(input: Seq<u8>, limits: ProtocolLimits) -> Result<
    (FrameContent, nat),
    Fault,
> {
    if input.len() < HEADER_BYTES {
        Err(truncated_fault())
    } else {
        match header_fault(input.take(16), limits) {
            Some(fault) => Err(fault),
            None => {
                let metadata = bytes::number_32(input[8], input[9], input[10], input[11]) as int;
                let payload = bytes::number_32(input[12], input[13], input[14], input[15]) as int;
                let kind = choose|kind: FrameKind| #[trigger]
                    kind.spec_code() == bytes::number_16(input[6], input[7]);
                if input.len() < 16 + metadata + payload {
                    Err(truncated_fault())
                } else {
                    Ok(
                        (
                            FrameContent {
                                kind,
                                metadata: input.subrange(16, 16 + metadata),
                                payload: input.subrange(16 + metadata, 16 + metadata + payload),
                            },
                            (16 + metadata + payload) as nat,
                        ),
                    )
                }
            },
        }
    }
}

/// Reads the frame at the start of the input, and says how many bytes it takes.
pub fn read_frame(input: &[u8], limits: ProtocolLimits) -> (read: Result<(Frame, usize), Fault>)
    ensures
        match decoded_frame(input@, limits) {
            Ok((content, consumed)) => read is Ok && read->Ok_0.0@ == content && read->Ok_0.1
                == consumed,
            Err(fault) => read == Err::<(Frame, usize), Fault>(fault),
        },
{
    let truncated = Fault {
        kind: FaultKind::UnexpectedEof,
        message: "failed to fill whole buffer",
    };
    if input.len() < HEADER_BYTES {
        return Err(truncated);
    }
    let start = vstd::slice::slice_subrange(input, 0, HEADER_BYTES);
    assert(start@ =~= input@.take(16));
    let header = match read_header(start, limits) {
        Ok(header) => header,
        Err(fault) => {
            return Err(fault);
        },
    };
    let left: usize = input.len() - HEADER_BYTES;
    if left < header.metadata_length || left - header.metadata_length < header.payload_length {
        return Err(truncated);
    }
    let middle: usize = HEADER_BYTES + header.metadata_length;
    let end: usize = middle + header.payload_length;
    let metadata = vstd::slice::slice_to_vec(
        vstd::slice::slice_subrange(input, HEADER_BYTES, middle),
    );
    let payload = vstd::slice::slice_to_vec(vstd::slice::slice_subrange(input, middle, end));
    proof {
        let chosen = choose|kind: FrameKind| #[trigger]
            kind.spec_code() == bytes::number_16(input@[6], input@[7]);
        codes_are_distinct(chosen, header.kind);
    }
    Ok((Frame::new(header.kind, metadata, payload), end))
}

/// A frame that could be written is read back from the start of whatever it was written to,
/// by a reader with the same limits.
pub proof fn written_frame_is_read_back(
    content: FrameContent,
    rest: Seq<u8>,
    limits: ProtocolLimits,
)
    requires
        write_fault(content, limits) is None,
    ensures
        decoded_frame(frame_bytes(content) + rest, limits) == Ok::<(FrameContent, nat), Fault>(
            (content, frame_bytes(content).len()),
        ),
{
    let input = frame_bytes(content) + rest;
    let code = content.kind.spec_code();
    let metadata = content.metadata.len() as int;
    let payload = content.payload.len() as int;
    bytes::bytes_of_16_join(PROTOCOL_VERSION);
    bytes::bytes_of_16_join(code);
    bytes::bytes_of_32_join(metadata as u32);
    bytes::bytes_of_32_join(payload as u32);
    assert(input.take(16).take(4) =~= magic());
    assert(input[4] == bytes::big_endian_16(PROTOCOL_VERSION)[0]);
    assert(input[5] == bytes::big_endian_16(PROTOCOL_VERSION)[1]);
    assert(input[6] == bytes::big_endian_16(code)[0]);
    assert(input[7] == bytes::big_endian_16(code)[1]);
    assert(input[8] == bytes::big_endian_32(metadata as u32)[0]);
    assert(input[9] == bytes::big_endian_32(metadata as u32)[1]);
    assert(input[10] == bytes::big_endian_32(metadata as u32)[2]);
    assert(input[11] == bytes::big_endian_32(metadata as u32)[3]);
    assert(input[12] == bytes::big_endian_32(payload as u32)[0]);
    assert(input[13] == bytes::big_endian_32(payload as u32)[1]);
    assert(input[14] == bytes::big_endian_32(payload as u32)[2]);
    assert(input[15] == bytes::big_endian_32(payload as u32)[3]);
    assert(input.subrange(16, 16 + metadata) =~= content.metadata);
    assert(input.subrange(16 + metadata, 16 + metadata + payload) =~= content.payload);
    let chosen = choose|kind: FrameKind| #[trigger]
        kind.spec_code() == bytes::number_16(input[6], input[7]);
    assert(content.kind.spec_code() == bytes::number_16(input[6], input[7]));
    codes_are_distinct(chosen, content.kind);
}

} // verus!
