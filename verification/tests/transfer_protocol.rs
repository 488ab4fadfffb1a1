use telchar::fault::FaultKind;
use telchar::nomad_transfer_protocol::{
    decode_metadata, encode_metadata, read_frame, read_header, write_frame, Direction, Frame,
    FrameKind, Phase, ProtocolLimits, ProtocolSession,
};

const TO_GATEWAY: Direction = Direction::WorkerToGateway;
const TO_WORKER: Direction = Direction::GatewayToWorker;

fn limits() -> ProtocolLimits {
    ProtocolLimits::new(64, 64)
}

fn written(kind: FrameKind, metadata: &[u8], payload: &[u8]) -> Vec<u8> {
    let mut output = Vec::new();
    let frame = Frame::new(kind, metadata.to_vec(), payload.to_vec());
    write_frame(&mut output, &frame, limits()).unwrap();
    output
}

#[test]
fn session_goes_through_its_phases() {
    let mut session = ProtocolSession::new();
    assert_eq!(session.phase(), Phase::AwaitingAuthentication);
    let frames = [
        (TO_GATEWAY, FrameKind::Authenticate, Phase::AwaitingManifest),
        (TO_WORKER, FrameKind::InputManifest, Phase::ResolvingInputs),
        (TO_GATEWAY, FrameKind::ValidPaths, Phase::ResolvingInputs),
        (TO_GATEWAY, FrameKind::InputRequest, Phase::ResolvingInputs),
        (TO_WORKER, FrameKind::InputNar, Phase::ResolvingInputs),
        (TO_GATEWAY, FrameKind::BuildStarted, Phase::Building),
        (TO_GATEWAY, FrameKind::LogChunk, Phase::Building),
        (TO_GATEWAY, FrameKind::OutputMetadata, Phase::CollectingOutputs),
        (TO_GATEWAY, FrameKind::OutputNar, Phase::CollectingOutputs),
        (TO_WORKER, FrameKind::OutputReceipt, Phase::CollectingOutputs),
        (TO_GATEWAY, FrameKind::BuildResult, Phase::Complete),
    ];
    for (direction, kind, phase) in frames {
        session.accept(direction, kind).unwrap();
        assert_eq!(session.phase(), phase);
    }
    assert!(session.is_complete());
    for code in 1..=11 {
        let kind = FrameKind::from_code(code).unwrap();
        assert!(session.accept(TO_GATEWAY, kind).is_err());
        assert!(session.accept(TO_WORKER, kind).is_err());
    }
}

#[test]
fn frame_out_of_order_changes_nothing() {
    let mut session = ProtocolSession::resume(Phase::Building);
    let refused = session.accept(TO_WORKER, FrameKind::LogChunk).unwrap_err();
    assert_eq!(refused.kind, FaultKind::InvalidData);
    assert_eq!(
        refused.message,
        "Nomad transfer frame is invalid for protocol phase"
    );
    assert_eq!(session.phase(), Phase::Building);
    assert!(!session.is_complete());
}

#[test]
fn codes_of_kinds_are_read_back() {
    for code in 1..=11 {
        assert_eq!(FrameKind::from_code(code).unwrap().code(), code);
    }
    for code in [0, 12, u16::MAX] {
        assert_eq!(
            FrameKind::from_code(code).unwrap_err().message,
            "Nomad transfer frame kind is unsupported"
        );
    }
}

#[test]
fn frame_is_written_and_read_back() {
    let bytes = written(FrameKind::OutputNar, b"{}", b"nar bytes");
    assert_eq!(bytes.len(), 16 + 2 + 9);
    let mut input = bytes.clone();
    input.extend_from_slice(b"rest");
    let (frame, consumed) = read_frame(&input, limits()).unwrap();
    assert_eq!(consumed, bytes.len());
    assert_eq!(frame.kind(), FrameKind::OutputNar);
    assert_eq!(frame.metadata(), b"{}");
    assert_eq!(frame.payload(), b"nar bytes");
    let header = read_header(&bytes[..16], limits()).unwrap();
    assert_eq!((header.metadata_length, header.payload_length), (2, 9));
}

#[test]
fn frames_keep_to_the_limits() {
    let mut output = vec![1];
    let large = Frame::new(FrameKind::LogChunk, Vec::new(), vec![0; 65]);
    assert!(write_frame(&mut output, &large, limits()).is_err());
    assert_eq!(output, vec![1]);
    let bytes = written(FrameKind::LogChunk, b"", &[0; 64]);
    assert!(read_frame(&bytes, ProtocolLimits::new(64, 63)).is_err());
    assert!(read_frame(&bytes[..70], limits()).is_err());
    assert!(read_frame(&bytes[..3], limits()).is_err());
}

#[test]
fn every_byte_of_the_header_counts() {
    let bytes = written(FrameKind::LogChunk, b"m", b"p");
    for place in 0..8 {
        let mut broken = bytes.clone();
        broken[place] ^= 0x40;
        assert!(read_frame(&broken, limits()).is_err());
    }
}

#[test]
fn metadata_is_bounded() {
    assert_eq!(encode_metadata(Some(vec![1, 2]), 2).unwrap(), vec![1, 2]);
    assert!(encode_metadata(Some(vec![1, 2]), 1).is_err());
    assert_eq!(
        encode_metadata(None, 8).unwrap_err().message,
        "Nomad transfer frame metadata is invalid"
    );
    let parsed = decode_metadata(b"7", 4, |bytes: &[u8]| bytes.first().copied()).unwrap();
    assert_eq!(parsed, b'7');
    let long = decode_metadata(b"too long", 4, |_: &[u8]| -> Option<u8> {
        panic!("metadata over the limit is not parsed")
    });
    assert_eq!(long.unwrap_err().message, "Nomad transfer frame metadata exceeds limit");
    assert!(decode_metadata(b"", 4, |bytes: &[u8]| bytes.first().copied()).is_err());
}
