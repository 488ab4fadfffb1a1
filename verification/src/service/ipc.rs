//! Envelopes by which a frontend introduces a requester to the daemon, the check of the peer on
//! the local socket, and the bounded relay of a stream.

use crate::bytes;
use crate::fault::{self, invalid_data, Fault, FaultKind};
use crate::text;
use vstd::prelude::*;
use vstd::utf8::*;

verus! {

pub const MAX_FRONTEND_BUFFER_BYTES: usize = 16_384;

pub const IPC_VERSION: u16 = 1;

pub const MAX_IPC_COMPONENT_BYTES: usize = 256;

pub const MAX_IPC_CREDENTIAL_ID_BYTES: usize = 1024;

pub const MAX_IPC_ERROR_MESSAGE_BYTES: usize = 4096;

pub const MAX_IPC_ENVELOPE_BYTES: usize = 16_384;

/// What is known of a relay when it ends.
#[derive(Clone, Copy, Debug, PartialEq, Eq, Structural)]
pub struct RelayStats {
    pub maximum_buffered_bytes: usize,
}

/// What a relay does after it has read.
#[derive(Clone, Copy, Debug, PartialEq, Eq, Structural)]
pub enum RelayStep {
    /// Pass on this many bytes of the buffer, and flush.
    Forward(usize),
    /// The source has ended: flush, and stop.
    Finish(RelayStats),
}

/// Decides what a relay does after it has read some bytes into its buffer.
pub fn copy_bounded(stats: &mut RelayStats, received: usize) -> (step: RelayStep)
    requires
        old(stats).maximum_buffered_bytes <= MAX_FRONTEND_BUFFER_BYTES,
        received <= MAX_FRONTEND_BUFFER_BYTES,
    ensures
        final(stats).maximum_buffered_bytes <= MAX_FRONTEND_BUFFER_BYTES,
        received == 0 ==> step == RelayStep::Finish(*old(stats)) && *final(stats) == *old(stats),
        received > 0 ==> step == RelayStep::Forward(received)
            && final(stats).maximum_buffered_bytes == (if received
            > old(stats).maximum_buffered_bytes {
            received
        } else {
            old(stats).maximum_buffered_bytes
        }),
{
    if received == 0 {
        return RelayStep::Finish(*stats);
    }
    if received > stats.maximum_buffered_bytes {
        stats.maximum_buffered_bytes = received;
    }
    RelayStep::Forward(received)
}

/// A peer that runs under another user than the expected one.
#[derive(Clone, Copy, Debug, PartialEq, Eq, Structural)]
pub struct PeerRefusal {
    pub kind: FaultKind,
    pub peer_uid: u32,
    pub expected_uid: u32,
}

impl PeerRefusal {
    pub fn kind(&self) -> (kind: FaultKind)
        ensures
            kind == self.kind,
    {
        self.kind
    }

    pub fn message(&self) -> (message: String)
        ensures
            message@ == "local IPC peer uid "@ + text::decimal_text(self.peer_uid as nat)
                + " does not match expected uid "@ + text::decimal_text(self.expected_uid as nat),
    {
        let mut message = "local IPC peer uid ".to_owned();
        text::append_decimal(&mut message, self.peer_uid as u64);
        message.append(" does not match expected uid ");
        text::append_decimal(&mut message, self.expected_uid as u64);
        message
    }
}

/// Lets a peer pass that runs under the expected user, and denies permission to any other.
pub fn authorize_peer(peer_uid: u32, expected_uid: u32) -> (authorized: Result<(), PeerRefusal>)
    ensures
        match peer_refusal(peer_uid, expected_uid) {
            Some(refusal) => authorized == Err::<(), PeerRefusal>(refusal),
            None => authorized is Ok,
        },
{
    if peer_uid != expected_uid {
        return Err(PeerRefusal { kind: FaultKind::PermissionDenied, peer_uid, expected_uid });
    }
    Ok(())
}

/// An envelope that does not come in time has timed out; other failures stay what they are.
pub fn classify_envelope_error(error: Fault) -> (classified: Fault)
    ensures
        classified == envelope_fault(error),
{
    match error.kind {
        FaultKind::WouldBlock | FaultKind::TimedOut => Fault {
            kind: FaultKind::TimedOut,
            message: "IPC envelope timed out",
        },
        _ => error,
    }
}

/// Who asks, as the frontend has established it.
#[derive(Clone, Debug)]
pub struct Requester {
    pub credential_id: String,
    pub audit_subject: String,
    pub quota_subject: String,
}

/// Who asks, as an envelope carries it.
#[derive(Clone, Debug)]
pub struct RequesterMetadata {
    pub credential_id: String,
    pub audit_subject: String,
    pub quota_subject: String,
}

/// A text of an envelope: not empty, and of at most so many bytes.
pub open spec fn fits(value: Seq<char>, maximum: int) -> bool {
    0 < text::byte_length(value) <= maximum
}

pub open spec fn bounds_fault() -> Fault {
    fault::data_fault("IPC string exceeds bounds")
}

/// A text that is not empty has bytes.
proof fn text_has_bytes(value: Seq<char>)
    ensures
        value.len() > 0 <==> text::byte_length(value) > 0,
{
    if value.len() > 0 {
        encode_utf8_valid_utf8(value);
        encode_utf8_decode_utf8(value);
        if encode_utf8(value).len() == 0 {
            assert(decode_utf8(encode_utf8(value)) =~= Seq::<char>::empty());
        }
    }
}

fn validate_string(value: &str, maximum: usize) -> (checked: Result<(), Fault>)
    ensures
        fits(value@, maximum as int) ==> checked is Ok,
        !fits(value@, maximum as int) ==> checked == Err::<(), Fault>(bounds_fault()),
{
    proof {
        text_has_bytes(value@);
    }
    if value.is_empty() || text::length_in_bytes(value) > maximum {
        return Err(invalid_data("IPC string exceeds bounds"));
    }
    Ok(())
}

impl RequesterMetadata {
    /// The names of a requester fit an envelope.
    pub open spec fn fits_envelope(
        credential_id: Seq<char>,
        audit_subject: Seq<char>,
        quota_subject: Seq<char>,
    ) -> bool {
        &&& fits(credential_id, MAX_IPC_CREDENTIAL_ID_BYTES as int)
        &&& fits(audit_subject, MAX_IPC_COMPONENT_BYTES as int)
        &&& fits(quota_subject, MAX_IPC_CREDENTIAL_ID_BYTES as int)
    }

    /// Takes over a requester whose names fit an envelope.
    pub fn from_requester(requester: &Requester) -> (metadata: Result<Self, Fault>)
        ensures
            RequesterMetadata::fits_envelope(
                requester.credential_id@,
                requester.audit_subject@,
                requester.quota_subject@,
            ) ==> metadata == Ok::<RequesterMetadata, Fault>(
                RequesterMetadata {
                    credential_id: requester.credential_id,
                    audit_subject: requester.audit_subject,
                    quota_subject: requester.quota_subject,
                },
            ),
            !RequesterMetadata::fits_envelope(
                requester.credential_id@,
                requester.audit_subject@,
                requester.quota_subject@,
            ) ==> metadata == Err::<RequesterMetadata, Fault>(bounds_fault()),
    {
        validate_string(requester.credential_id.as_str(), MAX_IPC_CREDENTIAL_ID_BYTES)?;
        validate_string(requester.audit_subject.as_str(), MAX_IPC_COMPONENT_BYTES)?;
        validate_string(requester.quota_subject.as_str(), MAX_IPC_CREDENTIAL_ID_BYTES)?;
        Ok(
            RequesterMetadata {
                credential_id: requester.credential_id.clone(),
                audit_subject: requester.audit_subject.clone(),
                quota_subject: requester.quota_subject.clone(),
            },
        )
    }
}

/// Why the other side failed.
#[derive(Clone, Debug)]
pub struct IpcError {
    pub code: String,
    pub message: String,
}

/// What opens a connection between a frontend and the daemon.
#[derive(Clone, Debug)]
pub struct IpcEnvelope {
    pub version: u16,
    pub requester: RequesterMetadata,
    pub session_id: String,
    pub error: Option<IpcError>,
}

/// What an envelope says.
#[verifier::ext_equal]
pub struct EnvelopeContent {
    pub version: u16,
    pub credential_id: Seq<char>,
    pub audit_subject: Seq<char>,
    pub quota_subject: Seq<char>,
    pub session_id: Seq<char>,
    pub error: Option<(Seq<char>, Seq<char>)>,
}

impl View for IpcEnvelope {
    type V = EnvelopeContent;

    open spec fn view(&self) -> EnvelopeContent {
        EnvelopeContent {
            version: self.version,
            credential_id: self.requester.credential_id@,
            audit_subject: self.requester.audit_subject@,
            quota_subject: self.requester.quota_subject@,
            session_id: self.session_id@,
            error: match self.error {
                Some(error) => Some((error.code@, error.message@)),
                None => None,
            },
        }
    }
}

/// The four bytes that every envelope begins with: `TIPC`.
pub open spec fn magic() -> Seq<u8> {
    seq![0x54u8, 0x49u8, 0x50u8, 0x43u8]
}

/// A text as bytes, after their number.
pub open spec fn field_bytes(value: Seq<char>) -> Seq<u8> {
    bytes::little_endian_16(text::byte_length(value) as u16) + encode_utf8(value)
}

/// The failure that an envelope carries, after a byte that says whether there is one.
pub open spec fn error_bytes(error: Option<(Seq<char>, Seq<char>)>) -> Seq<u8> {
    match error {
        Some((code, message)) => seq![1u8] + field_bytes(code) + field_bytes(message),
        None => seq![0u8],
    }
}

/// The bytes of an envelope.
pub open spec fn envelope_bytes(content: EnvelopeContent) -> Seq<u8> {
    magic() + bytes::little_endian_16(content.version) + field_bytes(content.credential_id)
        + field_bytes(content.audit_subject) + field_bytes(content.quota_subject) + field_bytes(
        content.session_id,
    ) + error_bytes(content.error)
}

/// Every text of the envelope fits.
pub open spec fn texts_fit(content: EnvelopeContent) -> bool {
    &&& RequesterMetadata::fits_envelope(
        content.credential_id,
        content.audit_subject,
        content.quota_subject,
    )
    &&& fits(content.session_id, MAX_IPC_COMPONENT_BYTES as int)
    &&& match content.error {
        Some((code, message)) => fits(code, MAX_IPC_COMPONENT_BYTES as int) && fits(
            message,
            MAX_IPC_ERROR_MESSAGE_BYTES as int,
        ),
        None => true,
    }
}

/// Why an envelope cannot be encoded.
pub open spec fn encode_fault(content: EnvelopeContent) -> Option<Fault> {
    if content.version != IPC_VERSION {
        Some(fault::data_fault("unsupported IPC version"))
    } else if !texts_fit(content) {
        Some(bounds_fault())
    } else {
        None
    }
}

fn write_string(output: &mut Vec<u8>, value: &str, maximum: usize) -> (written: Result<(), Fault>)
    requires
        maximum <= MAX_IPC_ERROR_MESSAGE_BYTES,
    ensures
        fits(value@, maximum as int) ==> written is Ok && final(output)@ == old(output)@
            + field_bytes(value@),
        !fits(value@, maximum as int) ==> written == Err::<(), Fault>(bounds_fault()),
{
    validate_string(value, maximum)?;
    bytes::push_little_endian_16(output, text::length_in_bytes(value) as u16);
    bytes::append_bytes(output, value.as_bytes());
    assert(output@ =~= old(output)@ + field_bytes(value@));
    Ok(())
}

/// What could be read of the input from an offset on, and where it ends.
pub struct Field {
    pub value: Seq<char>,
    pub end: int,
}

/// The text at an offset of an envelope, or why there is none.
#[verifier::opaque]
pub open spec fn field_at(input: Seq<u8>, offset: int, maximum: int) -> Result<Field, Fault> {
    if offset + 2 > input.len() {
        Err(fault::data_fault("truncated IPC envelope"))
    } else {
        let length = bytes::number_16(input[offset + 1], input[offset]) as int;
        if length == 0 || length > maximum {
            Err(bounds_fault())
        } else if offset + 2 + length > input.len() {
            Err(fault::data_fault("truncated IPC envelope"))
        } else {
            let encoded = input.subrange(offset + 2, offset + 2 + length);
            if valid_utf8(encoded) {
                Ok(Field { value: decode_utf8(encoded), end: offset + 2 + length })
            } else {
                Err(fault::data_fault("IPC string is not UTF-8"))
            }
        }
    }
}

/// The failure at an offset of an envelope, or why it cannot be read.
#[verifier::opaque]
pub open spec fn error_at(input: Seq<u8>, offset: int) -> Result<
    (Option<(Seq<char>, Seq<char>)>, int),
    Fault,
> {
    if offset + 1 > input.len() {
        Err(fault::data_fault("truncated IPC envelope"))
    } else if input[offset] == 0 {
        Ok((None, offset + 1))
    } else if input[offset] == 1 {
        match field_at(input, offset + 1, MAX_IPC_COMPONENT_BYTES as int) {
            Err(refusal) => Err(refusal),
            Ok(code) => match field_at(input, code.end, MAX_IPC_ERROR_MESSAGE_BYTES as int) {
                Err(refusal) => Err(refusal),
                Ok(message) => Ok((Some((code.value, message.value)), message.end)),
            },
        }
    } else {
        Err(fault::data_fault("invalid IPC error flag"))
    }
}

/// The envelope that fills the input, or why there is none.
#[verifier::opaque]
pub open spec fn decoded_envelope(input: Seq<u8>) -> Result<EnvelopeContent, Fault> {
    if input.len() > MAX_IPC_ENVELOPE_BYTES {
        Err(fault::data_fault("IPC envelope exceeds size limit"))
    } else if input.len() < 4 {
        Err(fault::data_fault("truncated IPC envelope"))
    } else if input.take(4) != magic() {
        Err(fault::data_fault("invalid IPC envelope magic"))
    } else if input.len() < 6 {
        Err(fault::data_fault("truncated IPC envelope"))
    } else if bytes::number_16(input[5], input[4]) != IPC_VERSION {
        Err(fault::data_fault("unsupported IPC version"))
    } else {
        match field_at(input, 6, MAX_IPC_CREDENTIAL_ID_BYTES as int) {
            Err(refusal) => Err(refusal),
            Ok(credential) => match field_at(
                input,
                credential.end,
                MAX_IPC_COMPONENT_BYTES as int,
            ) {
                Err(refusal) => Err(refusal),
                Ok(audit) => match field_at(
                    input,
                    audit.end,
                    MAX_IPC_CREDENTIAL_ID_BYTES as int,
                ) {
                    Err(refusal) => Err(refusal),
                    Ok(quota) => match field_at(
                        input,
                        quota.end,
                        MAX_IPC_COMPONENT_BYTES as int,
                    ) {
                        Err(refusal) => Err(refusal),
                        Ok(session) => match error_at(input, session.end) {
                            Err(refusal) => Err(refusal),
                            Ok((error, end)) => if end != input.len() {
                                Err(fault::data_fault("trailing IPC envelope bytes"))
                            } else {
                                Ok(
                                    EnvelopeContent {
                                        version: IPC_VERSION,
                                        credential_id: credential.value,
                                        audit_subject: audit.value,
                                        quota_subject: quota.value,
                                        session_id: session.value,
                                        error,
                                    },
                                )
                            },
                        },
                    },
                },
            },
        }
    }
}

/// Reads an envelope from the front.
struct Reader<'a> {
    input: &'a [u8],
    offset: usize,
}

impl<'a> Reader<'a> {
    fn string(&mut self, maximum: usize) -> (read: Result<String, Fault>)
        requires
            old(self).offset <= old(self).input@.len(),
        ensures
            final(self).input == old(self).input,
            match field_at(old(self).input@, old(self).offset as int, maximum as int) {
                Ok(field) => read is Ok && read->Ok_0@ == field.value && final(self).offset
                    == field.end && field.end <= final(self).input@.len(),
                Err(refusal) => read == Err::<String, Fault>(refusal),
            },
    {
        proof {
            reveal(field_at);
        }
        let left: usize = self.input.len() - self.offset;
        if left < 2 {
            return Err(invalid_data("truncated IPC envelope"));
        }
        let length = bytes::join_16(self.input[self.offset + 1], self.input[self.offset]) as usize;
        if length == 0 || length > maximum {
            return Err(invalid_data("IPC string exceeds bounds"));
        }
        if left - 2 < length {
            return Err(invalid_data("truncated IPC envelope"));
        }
        let start: usize = self.offset + 2;
        let encoded = vstd::slice::slice_subrange(self.input, start, start + length);
        self.offset = start + length;
        match text::text_of_bytes(encoded) {
            Some(value) => Ok(value),
            None => Err(invalid_data("IPC string is not UTF-8")),
        }
    }
}

impl IpcEnvelope {
    /// Makes the bytes of an envelope of this version whose texts fit.
    pub fn encode(&self) -> (encoded: Result<Vec<u8>, Fault>)
        ensures
            match encode_fault(self@) {
                Some(refusal) => encoded == Err::<Vec<u8>, Fault>(refusal),
                None => encoded is Ok && encoded->Ok_0@ == envelope_bytes(self@)
                    && encoded->Ok_0@.len() <= MAX_IPC_ENVELOPE_BYTES,
            },
    {
        if self.version != IPC_VERSION {
            return Err(invalid_data("unsupported IPC version"));
        }
        let mut output: Vec<u8> = Vec::new();
        output.push(0x54);
        output.push(0x49);
        output.push(0x50);
        output.push(0x43);
        assert(output@ =~= magic());
        bytes::push_little_endian_16(&mut output, self.version);
        write_string(
            &mut output,
            self.requester.credential_id.as_str(),
            MAX_IPC_CREDENTIAL_ID_BYTES,
        )?;
        write_string(&mut output, self.requester.audit_subject.as_str(), MAX_IPC_COMPONENT_BYTES)?;
        write_string(
            &mut output,
            self.requester.quota_subject.as_str(),
            MAX_IPC_CREDENTIAL_ID_BYTES,
        )?;
        write_string(&mut output, self.session_id.as_str(), MAX_IPC_COMPONENT_BYTES)?;
        let ghost before = output@;
        match &self.error {
            Some(error) => {
                output.push(1);
                write_string(&mut output, error.code.as_str(), MAX_IPC_COMPONENT_BYTES)?;
                write_string(&mut output, error.message.as_str(), MAX_IPC_ERROR_MESSAGE_BYTES)?;
            },
            None => {
                output.push(0);
            },
        }
        assert(output@ =~= before + error_bytes(self@.error));
        assert(output@ =~= envelope_bytes(self@));
        Ok(output)
    }

    /// Reads the envelope that fills the input.
    pub fn decode(input: &[u8]) -> (decoded: Result<Self, Fault>)
        ensures
            match decoded_envelope(input@) {
                Ok(content) => decoded is Ok && decoded->Ok_0@ == content,
                Err(refusal) => decoded == Err::<IpcEnvelope, Fault>(refusal),
            },
    {
        proof {
            reveal(decoded_envelope);
            reveal(error_at);
        }
        if input.len() > MAX_IPC_ENVELOPE_BYTES {
            return Err(invalid_data("IPC envelope exceeds size limit"));
        }
        if input.len() < 4 {
            return Err(invalid_data("truncated IPC envelope"));
        }
        proof {
            let start = input@.take(4);
            if start != magic() {
                assert(!(start =~= magic()));
            }
        }
        if input[0] != 0x54 || input[1] != 0x49 || input[2] != 0x50 || input[3] != 0x43 {
            return Err(invalid_data("invalid IPC envelope magic"));
        }
        assert(input@.take(4) =~= magic());
        if input.len() < 6 {
            return Err(invalid_data("truncated IPC envelope"));
        }
        let version = bytes::join_16(input[5], input[4]);
        if version != IPC_VERSION {
            return Err(invalid_data("unsupported IPC version"));
        }
        let mut reader = Reader { input, offset: 6 };
        let credential_id = reader.string(MAX_IPC_CREDENTIAL_ID_BYTES)?;
        let audit_subject = reader.string(MAX_IPC_COMPONENT_BYTES)?;
        let quota_subject = reader.string(MAX_IPC_CREDENTIAL_ID_BYTES)?;
        let session_id = reader.string(MAX_IPC_COMPONENT_BYTES)?;
        if reader.offset == input.len() {
            return Err(invalid_data("truncated IPC envelope"));
        }
        let flag: u8 = input[reader.offset];
        reader.offset = reader.offset + 1;
        let error = if flag == 0 {
            None
        } else if flag == 1 {
            let code = reader.string(MAX_IPC_COMPONENT_BYTES)?;
            let message = reader.string(MAX_IPC_ERROR_MESSAGE_BYTES)?;
            Some(IpcError { code, message })
        } else {
            return Err(invalid_data("invalid IPC error flag"));
        };
        if reader.offset != input.len() {
            return Err(invalid_data("trailing IPC envelope bytes"));
        }
        Ok(
            IpcEnvelope {
                version,
                requester: RequesterMetadata { credential_id, audit_subject, quota_subject },
                session_id,
                error,
            },
        )
    }
}

/// A text that stands in an input as a field is read back from there.
proof fn field_is_read_back(input: Seq<u8>, offset: int, value: Seq<char>, maximum: int)
    requires
        0 <= offset,
        offset + field_bytes(value).len() <= input.len(),
        input.subrange(offset, offset + field_bytes(value).len()) == field_bytes(value),
        fits(value, maximum),
        maximum <= MAX_IPC_ERROR_MESSAGE_BYTES,
    ensures
        field_at(input, offset, maximum) == Ok::<Field, Fault>(
            Field { value, end: offset + field_bytes(value).len() },
        ),
{
    reveal(field_at);
    let length = text::byte_length(value);
    let field = field_bytes(value);
    bytes::bytes_of_16_join(length as u16);
    let part = input.subrange(offset, offset + field.len());
    assert(field[0] == bytes::little_endian_16(length as u16)[0]);
    assert(field[1] == bytes::little_endian_16(length as u16)[1]);
    assert(input[offset] == part[0]);
    assert(input[offset + 1] == part[1]);
    let encoded = input.subrange(offset + 2, offset + 2 + length);
    assert(encoded =~= encode_utf8(value)) by {
        assert forall|i: int| 0 <= i < length implies encoded[i] == encode_utf8(value)[i] by {
            assert(part[2 + i] == field[2 + i]);
        }
    }
    encode_utf8_valid_utf8(value);
    encode_utf8_decode_utf8(value);
}

/// A field between what stands before and after it is read back.
proof fn embedded_field_is_read_back(
    before: Seq<u8>,
    value: Seq<char>,
    after: Seq<u8>,
    maximum: int,
)
    requires
        fits(value, maximum),
        maximum <= MAX_IPC_ERROR_MESSAGE_BYTES,
    ensures
        field_at(before + field_bytes(value) + after, before.len() as int, maximum) == Ok::<
            Field,
            Fault,
        >(Field { value, end: (before + field_bytes(value)).len() as int }),
{
    let input = before + field_bytes(value) + after;
    let start = before.len() as int;
    assert(input.subrange(start, start + field_bytes(value).len()) =~= field_bytes(value));
    field_is_read_back(input, start, value, maximum);
}

/// The failure that ends an envelope is read back.
proof fn embedded_error_is_read_back(before: Seq<u8>, error: Option<(Seq<char>, Seq<char>)>)
    requires
        match error {
            Some((code, message)) => fits(code, MAX_IPC_COMPONENT_BYTES as int) && fits(
                message,
                MAX_IPC_ERROR_MESSAGE_BYTES as int,
            ),
            None => true,
        },
    ensures
        error_at(before + error_bytes(error), before.len() as int) == Ok::<
            (Option<(Seq<char>, Seq<char>)>, int),
            Fault,
        >((error, (before + error_bytes(error)).len() as int)),
{
    reveal(error_at);
    let input = before + error_bytes(error);
    assert(input[before.len() as int] == error_bytes(error)[0]);
    if let Some((code, message)) = error {
        let flagged = before.push(1u8);
        let coded = flagged + field_bytes(code);
        assert(input =~= flagged + field_bytes(code) + field_bytes(message));
        embedded_field_is_read_back(
            flagged,
            code,
            field_bytes(message),
            MAX_IPC_COMPONENT_BYTES as int,
        );
        assert(input =~= coded + field_bytes(message) + Seq::<u8>::empty());
        embedded_field_is_read_back(
            coded,
            message,
            Seq::<u8>::empty(),
            MAX_IPC_ERROR_MESSAGE_BYTES as int,
        );
    }
}

/// The start of an envelope is read back.
proof fn start_is_read_back(version: u16, rest: Seq<u8>)
    ensures
        ({
            let input = magic() + bytes::little_endian_16(version) + rest;
            &&& input.take(4) == magic()
            &&& bytes::number_16(input[5], input[4]) == version
            &&& input.len() == 6 + rest.len()
        }),
{
    let input = magic() + bytes::little_endian_16(version) + rest;
    bytes::bytes_of_16_join(version);
    assert(input.take(4) =~= magic());
    assert(input[4] == bytes::little_endian_16(version)[0]);
    assert(input[5] == bytes::little_endian_16(version)[1]);
}

/// An input whose parts read back as those of an envelope decodes to it.
proof fn parts_decode(input: Seq<u8>, content: EnvelopeContent, ends: Seq<int>)
    requires
        6 <= input.len() <= MAX_IPC_ENVELOPE_BYTES,
        input.take(4) == magic(),
        bytes::number_16(input[5], input[4]) == IPC_VERSION,
        content.version == IPC_VERSION,
        ends.len() == 4,
        field_at(input, 6, MAX_IPC_CREDENTIAL_ID_BYTES as int) == Ok::<Field, Fault>(
            Field { value: content.credential_id, end: ends[0] },
        ),
        field_at(input, ends[0], MAX_IPC_COMPONENT_BYTES as int) == Ok::<Field, Fault>(
            Field { value: content.audit_subject, end: ends[1] },
        ),
        field_at(input, ends[1], MAX_IPC_CREDENTIAL_ID_BYTES as int) == Ok::<Field, Fault>(
            Field { value: content.quota_subject, end: ends[2] },
        ),
        field_at(input, ends[2], MAX_IPC_COMPONENT_BYTES as int) == Ok::<Field, Fault>(
            Field { value: content.session_id, end: ends[3] },
        ),
        error_at(input, ends[3]) == Ok::<(Option<(Seq<char>, Seq<char>)>, int), Fault>(
            (content.error, input.len() as int),
        ),
    ensures
        decoded_envelope(input) == Ok::<EnvelopeContent, Fault>(content),
{
    reveal(decoded_envelope);
}

/// Six parts, one after the other, can be grouped around each of them.
proof fn regrouped(a: Seq<u8>, b: Seq<u8>, c: Seq<u8>, d: Seq<u8>, e: Seq<u8>, f: Seq<u8>)
    ensures
        a + b + c + d + e + f == a + (b + (c + (d + (e + f)))),
        a + b + c + d + e + f == a + b + (c + (d + (e + f))),
        a + b + c + d + e + f == (a + b) + c + (d + (e + f)),
        a + b + c + d + e + f == (a + b + c) + d + (e + f),
{
    assert(a + b + c + d + e + f =~= a + (b + (c + (d + (e + f)))));
    assert(a + b + c + d + e + f =~= a + b + (c + (d + (e + f))));
    assert(a + b + c + d + e + f =~= (a + b) + c + (d + (e + f)));
    assert(a + b + c + d + e + f =~= (a + b + c) + d + (e + f));
}

/// The parts of an envelope, whatever the bytes of its fields, decode to it.
proof fn grouped_parts_decode(
    content: EnvelopeContent,
    start: Seq<u8>,
    credential: Seq<u8>,
    audit: Seq<u8>,
    quota: Seq<u8>,
    session: Seq<u8>,
    error: Seq<u8>,
)
    requires
        encode_fault(content) is None,
        start == magic() + bytes::little_endian_16(content.version),
        credential == field_bytes(content.credential_id),
        audit == field_bytes(content.audit_subject),
        quota == field_bytes(content.quota_subject),
        session == field_bytes(content.session_id),
        error == error_bytes(content.error),
        (start + credential + audit + quota + session + error).len() <= MAX_IPC_ENVELOPE_BYTES,
    ensures
        decoded_envelope(start + credential + audit + quota + session + error) == Ok::<
            EnvelopeContent,
            Fault,
        >(content),
{
    let input = start + credential + audit + quota + session + error;
    let second = start + credential;
    let third = second + audit;
    let fourth = third + quota;
    let fifth = fourth + session;
    regrouped(start, credential, audit, quota, session, error);
    start_is_read_back(content.version, credential + (audit + (quota + (session + error))));
    embedded_field_is_read_back(
        start,
        content.credential_id,
        audit + (quota + (session + error)),
        MAX_IPC_CREDENTIAL_ID_BYTES as int,
    );
    embedded_field_is_read_back(
        second,
        content.audit_subject,
        quota + (session + error),
        MAX_IPC_COMPONENT_BYTES as int,
    );
    embedded_field_is_read_back(
        third,
        content.quota_subject,
        session + error,
        MAX_IPC_CREDENTIAL_ID_BYTES as int,
    );
    embedded_field_is_read_back(fourth, content.session_id, error, MAX_IPC_COMPONENT_BYTES as int);
    embedded_error_is_read_back(fifth, content.error);
    let ends = seq![
        second.len() as int,
        third.len() as int,
        fourth.len() as int,
        fifth.len() as int,
    ];
    assert(start.len() == 6);
    parts_decode(input, content, ends);
}

/// An envelope that could be encoded is decoded to what it said.
pub proof fn encoded_envelope_is_decoded(content: EnvelopeContent)
    requires
        encode_fault(content) is None,
    ensures
        envelope_bytes(content).len() <= MAX_IPC_ENVELOPE_BYTES,
        decoded_envelope(envelope_bytes(content)) == Ok::<EnvelopeContent, Fault>(content),
{
    grouped_parts_decode(
        content,
        magic() + bytes::little_endian_16(content.version),
        field_bytes(content.credential_id),
        field_bytes(content.audit_subject),
        field_bytes(content.quota_subject),
        field_bytes(content.session_id),
        error_bytes(content.error),
    );
}

/// What decodes to a text is the field of the text.
proof fn read_field_is_written_back(input: Seq<u8>, offset: int, maximum: int)
    requires
        0 <= offset,
        maximum <= MAX_IPC_ERROR_MESSAGE_BYTES,
        field_at(input, offset, maximum) is Ok,
    ensures
        ({
            let field = field_at(input, offset, maximum)->Ok_0;
            &&& offset < field.end <= input.len()
            &&& fits(field.value, maximum)
            &&& input.subrange(offset, field.end) == field_bytes(field.value)
        }),
{
    reveal(field_at);
    let field = field_at(input, offset, maximum)->Ok_0;
    let length = bytes::number_16(input[offset + 1], input[offset]);
    let encoded = input.subrange(offset + 2, offset + 2 + length);
    decode_utf8_encode_utf8(encoded);
    bytes::joined_bytes_split(input[offset + 1], input[offset], 0, 0);
    assert(bytes::little_endian_16(length) =~= seq![input[offset], input[offset + 1]]) by {
        let big = bytes::big_endian_16(length);
        assert(big[0] == input[offset + 1] && big[1] == input[offset]);
    }
    assert(input.subrange(offset, field.end) =~= field_bytes(field.value));
}

/// Whatever decodes is the encoding of what it decodes to: no two inputs say the same.
pub proof fn decoded_envelope_is_canonical(input: Seq<u8>)
    requires
        decoded_envelope(input) is Ok,
    ensures
        encode_fault(decoded_envelope(input)->Ok_0) is None,
        envelope_bytes(decoded_envelope(input)->Ok_0) == input,
{
    reveal(decoded_envelope);
    reveal(error_at);
    let content = decoded_envelope(input)->Ok_0;
    let credential = field_at(input, 6, MAX_IPC_CREDENTIAL_ID_BYTES as int)->Ok_0;
    read_field_is_written_back(input, 6, MAX_IPC_CREDENTIAL_ID_BYTES as int);
    let audit = field_at(input, credential.end, MAX_IPC_COMPONENT_BYTES as int)->Ok_0;
    read_field_is_written_back(input, credential.end, MAX_IPC_COMPONENT_BYTES as int);
    let quota = field_at(input, audit.end, MAX_IPC_CREDENTIAL_ID_BYTES as int)->Ok_0;
    read_field_is_written_back(input, audit.end, MAX_IPC_CREDENTIAL_ID_BYTES as int);
    let session = field_at(input, quota.end, MAX_IPC_COMPONENT_BYTES as int)->Ok_0;
    read_field_is_written_back(input, quota.end, MAX_IPC_COMPONENT_BYTES as int);
    bytes::joined_bytes_split(input[5], input[4], 0, 0);
    assert(bytes::little_endian_16(content.version) =~= seq![input[4], input[5]]) by {
        let big = bytes::big_endian_16(content.version);
        assert(big[0] == input[5] && big[1] == input[4]);
    }
    assert(input.subrange(0, 6) =~= magic() + bytes::little_endian_16(content.version)) by {
        assert(input.take(4) =~= magic());
        assert forall|i: int| 0 <= i < 4 implies input[i] == magic()[i] by {
            assert(input.take(4)[i] == input[i]);
        }
    }
    if input[session.end] == 1 {
        let code = field_at(input, session.end + 1, MAX_IPC_COMPONENT_BYTES as int)->Ok_0;
        read_field_is_written_back(input, session.end + 1, MAX_IPC_COMPONENT_BYTES as int);
        read_field_is_written_back(input, code.end, MAX_IPC_ERROR_MESSAGE_BYTES as int);
        let message = field_at(input, code.end, MAX_IPC_ERROR_MESSAGE_BYTES as int)->Ok_0;
        assert(input.subrange(session.end, input.len() as int) =~= seq![1u8] + input.subrange(
            session.end + 1,
            code.end,
        ) + input.subrange(code.end, message.end));
    } else {
        assert(input.subrange(session.end, input.len() as int) =~= seq![0u8]);
    }
    assert(input.subrange(session.end, input.len() as int) =~= error_bytes(content.error));
    assert(input =~= input.subrange(0, 6) + input.subrange(6, credential.end) + input.subrange(
        credential.end,
        audit.end,
    ) + input.subrange(audit.end, quota.end) + input.subrange(quota.end, session.end)
        + input.subrange(session.end, input.len() as int));
    assert(envelope_bytes(content) =~= input);
}

/// Makes the bytes that carry an envelope over a stream: its length, then the envelope.
pub fn send_envelope(envelope: &IpcEnvelope) -> (sent: Result<Vec<u8>, Fault>)
    ensures
        match encode_fault(envelope@) {
            Some(refusal) => sent == Err::<Vec<u8>, Fault>(refusal),
            None => sent is Ok && sent->Ok_0@ == bytes::little_endian_32(
                envelope_bytes(envelope@).len() as u32,
            ) + envelope_bytes(envelope@),
        },
{
    let encoded = match envelope.encode() {
        Ok(encoded) => encoded,
        Err(refusal) => {
            return Err(refusal);
        },
    };
    let mut output: Vec<u8> = Vec::new();
    bytes::push_little_endian_32(&mut output, encoded.len() as u32);
    bytes::append_bytes(&mut output, encoded.as_slice());
    assert(output@ =~= bytes::little_endian_32(envelope_bytes(envelope@).len() as u32)
        + envelope_bytes(envelope@));
    Ok(output)
}

/// Reads how long the envelope is that follows.
pub fn envelope_length(first: u8, second: u8, third: u8, fourth: u8) -> (length: Result<
    usize,
    Fault,
>)
    ensures
        ({
            let announced = bytes::number_32(fourth, third, second, first);
            if announced > MAX_IPC_ENVELOPE_BYTES {
                length == Err::<usize, Fault>(fault::data_fault("IPC envelope exceeds size limit"))
            } else {
                length == Ok::<usize, Fault>(announced as usize)
            }
        }),
{
    let announced = bytes::join_32(fourth, third, second, first) as usize;
    if announced > MAX_IPC_ENVELOPE_BYTES {
        return Err(invalid_data("IPC envelope exceeds size limit"));
    }
    Ok(announced)
}

/// Why a peer is refused, if it is.
pub open spec fn peer_refusal(peer_uid: u32, expected_uid: u32) -> Option<PeerRefusal> {
    if peer_uid == expected_uid {
        None
    } else {
        Some(PeerRefusal { kind: FaultKind::PermissionDenied, peer_uid, expected_uid })
    }
}

/// What the failure to read an envelope is reported as.
pub open spec fn envelope_fault(error: Fault) -> Fault {
    if error.kind == FaultKind::WouldBlock || error.kind == FaultKind::TimedOut {
        Fault { kind: FaultKind::TimedOut, message: "IPC envelope timed out" }
    } else {
        error
    }
}

/// Among all users only the expected one is let in, and a refusal names both.
pub proof fn only_the_expected_user_is_let_in(peer_uid: u32, expected_uid: u32)
    ensures
        peer_refusal(peer_uid, expected_uid) is None <==> peer_uid == expected_uid,
        peer_refusal(peer_uid, expected_uid) matches Some(refusal) ==> refusal.peer_uid == peer_uid
            && refusal.expected_uid == expected_uid && refusal.kind is PermissionDenied,
{
}

/// Failures to read in time are one failure, and every other failure is reported as it is.
pub proof fn late_envelopes_have_timed_out(error: Fault, other: Fault)
    ensures
        envelope_fault(error).kind is TimedOut <==> error.kind is WouldBlock || error.kind
            is TimedOut,
        error.kind is WouldBlock && other.kind is TimedOut ==> envelope_fault(error)
            == envelope_fault(other),
        !(error.kind is WouldBlock || error.kind is TimedOut) ==> envelope_fault(error) == error,
        envelope_fault(envelope_fault(error)) == envelope_fault(error),
{
}

/// Who asks is carried by an envelope if and only if each part of the name fits into it.
pub proof fn short_names_fit(credential_id: Seq<char>, audit: Seq<char>, quota: Seq<char>)
    ensures
        RequesterMetadata::fits_envelope(credential_id, audit, quota) <==> {
            &&& credential_id.len() > 0 && text::byte_length(credential_id) <= 1024
            &&& audit.len() > 0 && text::byte_length(audit) <= 256
            &&& quota.len() > 0 && text::byte_length(quota) <= 1024
        },
{
    text_has_bytes(credential_id);
    text_has_bytes(audit);
    text_has_bytes(quota);
}

} // verus!
