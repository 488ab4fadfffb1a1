//! The one HTTP request that a Nomad worker makes: a bounded `POST /callback` whose body is a
//! transfer frame.

use crate::fault::{self, invalid_data, Fault};
use crate::text;
use vstd::prelude::*;
use vstd::utf8::*;

verus! {

/// How large the parts of a request may be.
#[derive(Clone, Copy, Debug, PartialEq, Eq, Structural)]
pub struct CallbackHttpLimits {
    maximum_header_bytes: usize,
    maximum_body_bytes: usize,
}

impl CallbackHttpLimits {
    pub closed spec fn header_limit(self) -> usize {
        self.maximum_header_bytes
    }

    pub closed spec fn body_limit(self) -> usize {
        self.maximum_body_bytes
    }

    pub fn new(maximum_header_bytes: usize, maximum_body_bytes: usize) -> (limits: Self)
        ensures
            limits.header_limit() == maximum_header_bytes,
            limits.body_limit() == maximum_body_bytes,
    {
        CallbackHttpLimits { maximum_header_bytes, maximum_body_bytes }
    }
}

/// The bytes end with an empty line.
pub open spec fn ends_with_blank_line(bytes: Seq<u8>) -> bool {
    let n = bytes.len() as int;
    n >= 4 && bytes[n - 4] == 0x0d && bytes[n - 3] == 0x0a && bytes[n - 2] == 0x0d && bytes[n - 1]
        == 0x0a
}

/// The header block of the input is its shortest start that ends with an empty line.
pub open spec fn block_ends_at(input: Seq<u8>, length: int) -> bool {
    &&& 0 <= length <= input.len()
    &&& ends_with_blank_line(input.take(length))
    &&& forall|shorter: int|
        0 <= shorter < length ==> !ends_with_blank_line(#[trigger] input.take(shorter))
}

/// What to do with the header bytes read so far.
#[derive(Clone, Copy, Debug, PartialEq, Eq, Structural)]
pub enum HeaderProgress {
    /// The header block has ended.
    Complete,
    /// One more byte has to be read.
    Wanting,
    /// The block has reached its limit without an end.
    Exceeded,
}

/// Says what to do with the header bytes read so far.
pub fn header_progress(headers: &[u8], limits: CallbackHttpLimits) -> (progress: HeaderProgress)
    ensures
        progress == (if ends_with_blank_line(headers@) {
            HeaderProgress::Complete
        } else if headers@.len() >= limits.header_limit() {
            HeaderProgress::Exceeded
        } else {
            HeaderProgress::Wanting
        }),
{
    let n: usize = headers.len();
    if n >= 4 && headers[n - 4] == 0x0d && headers[n - 3] == 0x0a && headers[n - 2] == 0x0d
        && headers[n - 1] == 0x0a {
        HeaderProgress::Complete
    } else if n >= limits.maximum_header_bytes {
        HeaderProgress::Exceeded
    } else {
        HeaderProgress::Wanting
    }
}

/// Finds the end of the header block of an input that holds all that the peer sends.
fn header_block(input: &[u8], limits: CallbackHttpLimits) -> (block: Result<usize, Fault>)
    ensures
        match block {
            Ok(length) => length <= limits.header_limit() && block_ends_at(input@, length as int),
            Err(refusal) => {
                &&& forall|length: int|
                    0 <= length <= input@.len() && length <= limits.header_limit()
                        ==> !ends_with_blank_line(#[trigger] input@.take(length))
                &&& refusal == (if limits.header_limit() <= input@.len() {
                    fault::data_fault("Nomad callback HTTP headers exceed limit")
                } else {
                    fault::data_fault("Nomad callback HTTP headers are incomplete")
                })
            },
        },
{
    let mut taken: usize = 0;
    loop
        invariant
            taken <= input@.len(),
            taken <= limits.header_limit(),
            forall|shorter: int|
                0 <= shorter < taken ==> !ends_with_blank_line(#[trigger] input@.take(shorter)),
        decreases input@.len() - taken,
    {
        let headers = vstd::slice::slice_subrange(input, 0, taken);
        assert(headers@ =~= input@.take(taken as int));
        match header_progress(headers, limits) {
            HeaderProgress::Complete => {
                return Ok(taken);
            },
            HeaderProgress::Exceeded => {
                return Err(invalid_data("Nomad callback HTTP headers exceed limit"));
            },
            HeaderProgress::Wanting => {
                if taken == input.len() {
                    return Err(invalid_data("Nomad callback HTTP headers are incomplete"));
                }
                taken += 1;
            },
        }
    }
}

/// What the header lines say that matters.
#[verifier::ext_equal]
pub struct Announced {
    pub content_length: Option<nat>,
    pub content_type: Option<Seq<char>>,
}

/// What the lines so far and one more line say.
pub open spec fn with_header(before: Announced, line: Seq<char>) -> Result<Announced, Fault> {
    match text::position(line, seq![':']) {
        None => Err(fault::data_fault("Nomad callback HTTP header is invalid")),
        Some(colon) => {
            let name = line.take(colon);
            let raw = line.skip(colon + 1);
            let value = text::trim(raw);
            if name.len() == 0 || raw.len() == 0 || raw[0] != ' ' {
                Err(fault::data_fault("Nomad callback HTTP header is invalid"))
            } else if text::same_ignoring_case(name, "content-length"@) {
                match (before.content_length, text::unsigned_number(value, usize::MAX as nat)) {
                    (None, Some(length)) => Ok(
                        Announced { content_length: Some(length), ..before },
                    ),
                    _ => Err(fault::data_fault("Nomad callback HTTP content length is invalid")),
                }
            } else if text::same_ignoring_case(name, "content-type"@) {
                if before.content_type is Some {
                    Err(fault::data_fault("Nomad callback HTTP content type is invalid"))
                } else {
                    Ok(Announced { content_type: Some(value), ..before })
                }
            } else if text::same_ignoring_case(name, "transfer-encoding"@) {
                Err(fault::data_fault("Nomad callback HTTP transfer encoding is unsupported"))
            } else {
                Ok(before)
            }
        },
    }
}

/// What the header lines say; the first line that is refused decides.
pub open spec fn announced(lines: Seq<Seq<char>>) -> Result<Announced, Fault>
    decreases lines.len(),
{
    if lines.len() == 0 {
        Ok(Announced { content_length: None, content_type: None })
    } else {
        match announced(lines.drop_last()) {
            Err(refusal) => Err(refusal),
            Ok(before) => with_header(before, lines.last()),
        }
    }
}

/// The body length that a header block announces; `headers` ends with the empty line.
pub open spec fn announced_body(headers: Seq<u8>, body_limit: nat) -> Result<nat, Fault> {
    let block = headers.take(headers.len() - 4);
    if !valid_utf8(block) {
        Err(fault::data_fault("Nomad callback HTTP headers are invalid"))
    } else {
        let lines = text::split(decode_utf8(block), seq!['\r', '\n']);
        if lines[0] != "POST /callback HTTP/1.1"@ {
            Err(fault::data_fault("Nomad callback HTTP request line is invalid"))
        } else {
            match announced(lines.skip(1)) {
                Err(refusal) => Err(refusal),
                Ok(found) => match found.content_length {
                    None => Err(fault::data_fault("Nomad callback HTTP content length is missing")),
                    Some(length) => if length == 0 || length > body_limit {
                        Err(fault::data_fault("Nomad callback HTTP body length is invalid"))
                    } else if found.content_type != Some(
                        "application/vnd.telchar.nomad-transfer"@,
                    ) {
                        Err(fault::data_fault("Nomad callback HTTP content type is invalid"))
                    } else {
                        Ok(length)
                    },
                },
            }
        }
    }
}

/// A split text has at least one piece.
proof fn split_is_not_empty(whole: Seq<char>, pattern: Seq<char>)
    ensures
        text::split(whole, pattern).len() > 0,
{
}

/// Once a line is refused, the lines after it do not matter.
proof fn refusal_stays(lines: Seq<Seq<char>>, count: int)
    requires
        0 <= count <= lines.len(),
        announced(lines.take(count)) is Err,
    ensures
        announced(lines) == announced(lines.take(count)),
    decreases lines.len(),
{
    if count == lines.len() {
        assert(lines.take(count) =~= lines);
    } else {
        assert(lines.drop_last().take(count) =~= lines.take(count));
        refusal_stays(lines.drop_last(), count);
    }
}

/// Reads the header block, which ends with the empty line, and says how long the body is.
#[verifier::rlimit(30)]
pub fn body_length(headers: &[u8], limits: CallbackHttpLimits) -> (length: Result<usize, Fault>)
    requires
        ends_with_blank_line(headers@),
    ensures
        match length {
            Ok(bytes) => announced_body(headers@, limits.body_limit() as nat) == Ok::<nat, Fault>(
                bytes as nat,
            ),
            Err(refusal) => announced_body(headers@, limits.body_limit() as nat) == Err::<
                nat,
                Fault,
            >(refusal),
        },
{
    let block = vstd::slice::slice_subrange(headers, 0, headers.len() - 4);
    assert(block@ =~= headers@.take(headers@.len() - 4));
    let decoded = match text::text_of_bytes(block) {
        Some(decoded) => decoded,
        None => {
            return Err(invalid_data("Nomad callback HTTP headers are invalid"));
        },
    };
    let whole = text::characters(decoded.as_str());
    let crlf: Vec<char> = vec!['\r', '\n'];
    assert(crlf@ =~= seq!['\r', '\n']);
    let lines = text::split_at_each(whole.as_slice(), crlf.as_slice());
    let ghost pieces = text::split(decode_utf8(block@), seq!['\r', '\n']);
    proof {
        split_is_not_empty(decode_utf8(block@), seq!['\r', '\n']);
    }
    let expected = text::characters("POST /callback HTTP/1.1");
    assert(lines@[0]@ == pieces[0]);
    if !same_characters(lines[0].as_slice(), expected.as_slice()) {
        return Err(invalid_data("Nomad callback HTTP request line is invalid"));
    }
    let colon: Vec<char> = vec![':'];
    assert(colon@ =~= seq![':']);
    let length_name = text::characters("content-length");
    let kind_name = text::characters("content-type");
    let encoding_name = text::characters("transfer-encoding");
    let transfer_type = text::characters("application/vnd.telchar.nomad-transfer");
    let mut content_length: Option<usize> = None;
    let mut content_type: Option<Vec<char>> = None;
    let ghost rest = pieces.skip(1);
    assert(rest.take(0) =~= Seq::<Seq<char>>::empty());
    let mut i: usize = 1;
    while i < lines.len()
        invariant
            1 <= i <= lines@.len(),
            lines@.len() == pieces.len(),
            forall|j: int| 0 <= j < lines@.len() ==> #[trigger] lines@[j]@ == pieces[j],
            rest == pieces.skip(1),
            colon@ == seq![':'],
            length_name@ == "content-length"@,
            kind_name@ == "content-type"@,
            encoding_name@ == "transfer-encoding"@,
            pieces == text::split(decode_utf8(headers@.take(headers@.len() - 4)), seq!['\r', '\n']),
            valid_utf8(headers@.take(headers@.len() - 4)),
            pieces[0] == "POST /callback HTTP/1.1"@,
            announced(rest.take(i - 1)) is Ok,
            announced(rest.take(i - 1))->Ok_0.content_length == (match content_length {
                Some(length) => Some(length as nat),
                None => None,
            }),
            announced(rest.take(i - 1))->Ok_0.content_type == (match content_type {
                Some(kind) => Some(kind@),
                None => None,
            }),
        decreases lines@.len() - i,
    {
        let line = lines[i].as_slice();
        let ghost before = announced(rest.take(i - 1))->Ok_0;
        proof {
            assert(line@ == rest[i - 1]);
            assert(rest.take(i as int).drop_last() =~= rest.take(i - 1));
            assert(rest.take(i as int).last() == line@);
            assert(announced(rest.take(i as int)) == with_header(before, line@));
            text::position_is_first(line@, seq![':']);
            if with_header(before, line@) is Err {
                refusal_stays(rest, i as int);
            }
        }
        let place = match text::find(line, colon.as_slice()) {
            Some(place) => place,
            None => {
                return Err(invalid_data("Nomad callback HTTP header is invalid"));
            },
        };
        let name = vstd::slice::slice_subrange(line, 0, place);
        let end: usize = line.len();
        assert(place < end);
        let raw = vstd::slice::slice_subrange(line, place + 1, end);
        assert(name@ =~= line@.take(place as int));
        assert(raw@ =~= line@.skip(place + 1));
        if name.len() == 0 || raw.len() == 0 || raw[0] != ' ' {
            return Err(invalid_data("Nomad callback HTTP header is invalid"));
        }
        let value = text::trimmed(raw);
        if text::equal_ignoring_case(name, length_name.as_slice()) {
            if content_length.is_some() {
                return Err(invalid_data("Nomad callback HTTP content length is invalid"));
            }
            match text::parse_unsigned(value, usize::MAX as u64) {
                None => {
                    return Err(invalid_data("Nomad callback HTTP content length is invalid"));
                },
                Some(length) => {
                    content_length = Some(length as usize);
                },
            }
        } else if text::equal_ignoring_case(name, kind_name.as_slice()) {
            if content_type.is_some() {
                return Err(invalid_data("Nomad callback HTTP content type is invalid"));
            }
            content_type = Some(vstd::slice::slice_to_vec(value));
        } else if text::equal_ignoring_case(name, encoding_name.as_slice()) {
            return Err(invalid_data("Nomad callback HTTP transfer encoding is unsupported"));
        }
        i += 1;
    }
    assert(rest.take(rest.len() as int) =~= rest);
    let length = match content_length {
        Some(length) => length,
        None => {
            return Err(invalid_data("Nomad callback HTTP content length is missing"));
        },
    };
    if length == 0 || length > limits.maximum_body_bytes {
        return Err(invalid_data("Nomad callback HTTP body length is invalid"));
    }
    match content_type {
        Some(kind) => {
            if same_characters(kind.as_slice(), transfer_type.as_slice()) {
                return Ok(length);
            }
            Err(invalid_data("Nomad callback HTTP content type is invalid"))
        },
        None => Err(invalid_data("Nomad callback HTTP content type is invalid")),
    }
}

fn same_characters(left: &[char], right: &[char]) -> (same: bool)
    ensures
        same == (left@ == right@),
{
    if left.len() != right.len() {
        return false;
    }
    let mut i: usize = 0;
    while i < left.len()
        invariant
            left@.len() == right@.len(),
            i <= left@.len(),
            forall|j: int| 0 <= j < i ==> left@[j] == right@[j],
        decreases left@.len() - i,
    {
        if left[i] != right[i] {
            return false;
        }
        i += 1;
    }
    assert(left@ =~= right@);
    true
}

/// A request that was read in full.
#[derive(Debug)]
pub struct Request {
    pub method: &'static str,
    pub path: &'static str,
    pub body: Vec<u8>,
}

/// Where the header block of the input ends, if it ends within a limit.
pub open spec fn block_length(input: Seq<u8>, limit: int) -> Option<int> {
    if exists|length: int| length <= limit && #[trigger] block_ends_at(input, length) {
        Some(choose|length: int| length <= limit && #[trigger] block_ends_at(input, length))
    } else {
        None
    }
}

/// The body of the request that the input holds, or why it is refused.
pub open spec fn requested_body(input: Seq<u8>, limits: CallbackHttpLimits) -> Result<
    Seq<u8>,
    Fault,
> {
    if limits.header_limit() == 0 || limits.body_limit() == 0 {
        Err(fault::data_fault("Nomad callback HTTP limits are invalid"))
    } else {
        match block_length(input, limits.header_limit() as int) {
            None => if limits.header_limit() <= input.len() {
                Err(fault::data_fault("Nomad callback HTTP headers exceed limit"))
            } else {
                Err(fault::data_fault("Nomad callback HTTP headers are incomplete"))
            },
            Some(length) => match announced_body(input.take(length), limits.body_limit() as nat) {
                Err(refusal) => Err(refusal),
                Ok(body) => if length + body > input.len() {
                    Err(fault::data_fault("Nomad callback HTTP body is incomplete"))
                } else {
                    Ok(input.subrange(length, length + body))
                },
            },
        }
    }
}

/// An input has one header block.
proof fn block_is_unique(input: Seq<u8>, left: int, right: int)
    requires
        block_ends_at(input, left),
        block_ends_at(input, right),
    ensures
        left == right,
{
    if left < right {
        assert(!ends_with_blank_line(input.take(left)));
    }
    if right < left {
        assert(!ends_with_blank_line(input.take(right)));
    }
}

/// Reads a request from all that the peer sends.
fn read_request(input: &[u8], limits: CallbackHttpLimits) -> (request: Result<Request, Fault>)
    ensures
        match request {
            Ok(read) => {
                &&& requested_body(input@, limits) == Ok::<Seq<u8>, Fault>(read.body@)
                &&& read.method@ == "POST"@
                &&& read.path@ == "/callback"@
            },
            Err(refusal) => requested_body(input@, limits) == Err::<Seq<u8>, Fault>(refusal),
        },
{
    if limits.maximum_header_bytes == 0 || limits.maximum_body_bytes == 0 {
        return Err(invalid_data("Nomad callback HTTP limits are invalid"));
    }
    let length = match header_block(input, limits) {
        Ok(length) => length,
        Err(refusal) => {
            proof {
                let limit = limits.header_limit() as int;
                if block_length(input@, limit) is Some {
                    let end = choose|end: int| end <= limit && #[trigger] block_ends_at(input@, end);
                    assert(!ends_with_blank_line(input@.take(end)));
                }
            }
            return Err(refusal);
        },
    };
    proof {
        let limit = limits.header_limit() as int;
        assert(block_length(input@, limit) is Some);
        block_is_unique(input@, block_length(input@, limit)->0, length as int);
    }
    let headers = vstd::slice::slice_subrange(input, 0, length);
    assert(headers@ =~= input@.take(length as int));
    let body = match body_length(headers, limits) {
        Ok(body) => body,
        Err(refusal) => {
            return Err(refusal);
        },
    };
    if input.len() - length < body {
        return Err(invalid_data("Nomad callback HTTP body is incomplete"));
    }
    Ok(
        Request {
            method: "POST",
            path: "/callback",
            body: vstd::slice::slice_to_vec(
                vstd::slice::slice_subrange(input, length, length + body),
            ),
        },
    )
}

/// What is sent back to the peer, and what becomes of the connection.
#[derive(Debug)]
pub struct Answer {
    pub response: String,
    pub outcome: Result<(), Fault>,
}

/// The response with a status.
pub open spec fn response_text(status: Seq<char>) -> Seq<char> {
    "HTTP/1.1 "@ + status + "\r\nContent-Length: 0\r\nConnection: close\r\n\r\n"@
}

fn write_response(status: &str) -> (response: String)
    ensures
        response@ == response_text(status@),
{
    let mut response = "HTTP/1.1 ".to_owned();
    response.append(status);
    response.append("\r\nContent-Length: 0\r\nConnection: close\r\n\r\n");
    response
}

/// Answers a peer that has sent `input`: a request that cannot be read is a bad request, one
/// that is not admitted is forbidden, and any other has no content to return. Only the body of a
/// request that was read is handed to `admission`.
pub fn handle_connection<F: FnOnce(&str, &str, &[u8]) -> Result<(), Fault>>(
    input: &[u8],
    limits: CallbackHttpLimits,
    admission: F,
) -> (answer: Answer)
    requires
        requested_body(input@, limits) matches Ok(body) ==> forall|
            method: &str,
            path: &str,
            bytes: &[u8],
        |
            method@ == "POST"@ && path@ == "/callback"@ && bytes@ == body
                ==> #[trigger] admission.requires((method, path, bytes)),
    ensures
        match requested_body(input@, limits) {
            Err(refusal) => {
                &&& answer.response@ == response_text("400 Bad Request"@)
                &&& answer.outcome == Err::<(), Fault>(refusal)
            },
            Ok(body) => exists|method: &str, path: &str, bytes: &[u8], admitted: Result<(), Fault>|
                {
                    &&& method@ == "POST"@ && path@ == "/callback"@ && bytes@ == body
                    &&& #[trigger] admission.ensures((method, path, bytes), admitted)
                    &&& match admitted {
                        Ok(()) => answer.response@ == response_text("204 No Content"@)
                            && answer.outcome is Ok,
                        Err(refusal) => answer.response@ == response_text("403 Forbidden"@)
                            && answer.outcome == Err::<(), Fault>(
                            Fault {
                                kind: refusal.kind,
                                message: "Nomad callback admission failed",
                            },
                        ),
                    }
                },
        },
{
    let request = match read_request(input, limits) {
        Ok(request) => request,
        Err(refusal) => {
            return Answer { response: write_response("400 Bad Request"), outcome: Err(refusal) };
        },
    };
    match admission(request.method, request.path, request.body.as_slice()) {
        Ok(()) => Answer { response: write_response("204 No Content"), outcome: Ok(()) },
        Err(refusal) => Answer {
            response: write_response("403 Forbidden"),
            outcome: Err(
                Fault { kind: refusal.kind, message: "Nomad callback admission failed" },
            ),
        },
    }
}

/// A line is a header with a name: something, a colon, a space and what is after it.
pub open spec fn is_header(line: Seq<char>) -> bool {
    &&& text::position(line, seq![':']) matches Some(colon) && colon > 0
    &&& line.skip(text::position(line, seq![':'])->0 + 1).len() > 0
    &&& line.skip(text::position(line, seq![':'])->0 + 1)[0] == ' '
}

/// A line is the header of a name, in whatever case.
pub open spec fn is_named(line: Seq<char>, name: Seq<char>) -> bool {
    text::position(line, seq![':']) matches Some(colon) && text::same_ignoring_case(
        line.take(colon),
        name,
    )
}

/// The value of a header, without the space around it.
pub open spec fn value_of(line: Seq<char>) -> Seq<char> {
    text::trim(line.skip(text::position(line, seq![':'])->0 + 1))
}

/// A line is the only one with its name.
pub open spec fn is_only(lines: Seq<Seq<char>>, name: Seq<char>, place: int) -> bool {
    &&& 0 <= place < lines.len()
    &&& is_named(lines[place], name)
    &&& forall|i: int| 0 <= i < lines.len() && is_named(#[trigger] lines[i], name) ==> i == place
}

/// No line has a name.
pub open spec fn is_absent(lines: Seq<Seq<char>>, name: Seq<char>) -> bool {
    forall|i: int| 0 <= i < lines.len() ==> !is_named(#[trigger] lines[i], name)
}

proof fn names_are_told_apart(name: Seq<char>)
    ensures
        text::same_ignoring_case(name, "content-length"@) ==> name.len() == 14,
        text::same_ignoring_case(name, "content-type"@) ==> name.len() == 12,
        text::same_ignoring_case(name, "transfer-encoding"@) ==> name.len() == 17,
{
    reveal_strlit("content-length");
    reveal_strlit("content-type");
    reveal_strlit("transfer-encoding");
}

/// Headers that are taken are well-formed. The length and the type of the body are each announced
/// at most once, and are what was announced, and the body is not encoded for its transfer.
pub proof fn headers_announce_once(lines: Seq<Seq<char>>)
    requires
        announced(lines) is Ok,
    ensures
        forall|i: int| 0 <= i < lines.len() ==> is_header(#[trigger] lines[i]),
        is_absent(lines, "transfer-encoding"@),
        match (announced(lines)->Ok_0).content_length {
            Some(length) => exists|place: int| #[trigger]
                is_only(lines, "content-length"@, place) && text::unsigned_number(
                    value_of(lines[place]),
                    usize::MAX as nat,
                ) == Some(length),
            None => is_absent(lines, "content-length"@),
        },
        match (announced(lines)->Ok_0).content_type {
            Some(value) => exists|place: int| #[trigger]
                is_only(lines, "content-type"@, place) && value_of(lines[place]) == value,
            None => is_absent(lines, "content-type"@),
        },
    decreases lines.len(),
{
    if lines.len() > 0 {
        let earlier = lines.drop_last();
        let last = lines.last();
        let count = lines.len() - 1;
        headers_announce_once(earlier);
        let before = announced(earlier)->Ok_0;
        let after = announced(lines)->Ok_0;
        let colon = text::position(last, seq![':'])->0;
        names_are_told_apart(last.take(colon));
        text::position_is_first(last, seq![':']);
        assert(lines[count] == last);
        assert forall|i: int| 0 <= i < lines.len() implies is_header(#[trigger] lines[i]) by {
            if i < count {
                assert(lines[i] == earlier[i]);
            }
        }
        assert forall|i: int| 0 <= i < lines.len() implies !is_named(
            #[trigger] lines[i],
            "transfer-encoding"@,
        ) by {
            if i < count {
                assert(lines[i] == earlier[i]);
            }
        }
        name_is_kept(lines, "content-length"@);
        name_is_kept(lines, "content-type"@);
        if before.content_length is Some {
            let length = before.content_length->0;
            let place = choose|place: int| #[trigger]
                is_only(earlier, "content-length"@, place) && text::unsigned_number(
                    value_of(earlier[place]),
                    usize::MAX as nat,
                ) == Some(length);
            assert(lines[place] == earlier[place]);
            assert(!is_named(last, "content-length"@));
            assert(is_only(lines, "content-length"@, place));
        } else if after.content_length is Some {
            assert(is_only(lines, "content-length"@, count));
        }
        if before.content_type is Some {
            let value = before.content_type->0;
            let place = choose|place: int| #[trigger]
                is_only(earlier, "content-type"@, place) && value_of(earlier[place]) == value;
            assert(lines[place] == earlier[place]);
            assert(!is_named(last, "content-type"@));
            assert(is_only(lines, "content-type"@, place));
        } else if after.content_type is Some {
            assert(is_only(lines, "content-type"@, count));
        }
    }
}

/// A name that a line does not add stays absent, or with its only line.
proof fn name_is_kept(lines: Seq<Seq<char>>, name: Seq<char>)
    requires
        lines.len() > 0,
    ensures
        is_absent(lines.drop_last(), name) && !is_named(lines.last(), name) ==> is_absent(
            lines,
            name,
        ),
        is_absent(lines.drop_last(), name) && is_named(lines.last(), name) ==> is_only(
            lines,
            name,
            lines.len() - 1,
        ),
        forall|place: int| #[trigger]
            is_only(lines.drop_last(), name, place) && !is_named(lines.last(), name) ==> is_only(
                lines,
                name,
                place,
            ),
{
    let earlier = lines.drop_last();
    assert forall|i: int| 0 <= i < earlier.len() implies #[trigger] lines[i] == earlier[i] by {}
    assert(lines[lines.len() - 1] == lines.last());
}

/// A request that is taken has a header block within its limit that begins with the request line
/// and announces the type of a transfer and a length within the limit; and what is taken are that
/// many bytes right after the block.
pub proof fn taken_body_is_what_was_announced(input: Seq<u8>, limits: CallbackHttpLimits)
    requires
        requested_body(input, limits) is Ok,
    ensures
        exists|length: int|
            #![trigger block_ends_at(input, length)]
            {
                let body = requested_body(input, limits)->Ok_0;
                let block = input.take(length - 4);
                let lines = text::split(decode_utf8(block), seq!['\r', '\n']);
                &&& block_ends_at(input, length)
                &&& length <= limits.header_limit()
                &&& valid_utf8(block)
                &&& lines[0] == "POST /callback HTTP/1.1"@
                &&& 0 < body.len() <= limits.body_limit()
                &&& length + body.len() <= input.len()
                &&& body == input.subrange(length, length + body.len())
                &&& is_absent(lines.skip(1), "transfer-encoding"@)
                &&& exists|place: int| #[trigger]
                    is_only(lines.skip(1), "content-length"@, place) && text::unsigned_number(
                        value_of(lines.skip(1)[place]),
                        usize::MAX as nat,
                    ) == Some(body.len())
                &&& exists|place: int| #[trigger]
                    is_only(lines.skip(1), "content-type"@, place) && value_of(
                        lines.skip(1)[place],
                    ) == "application/vnd.telchar.nomad-transfer"@
            },
{
    let limit = limits.header_limit() as int;
    let length = choose|length: int| length <= limit && #[trigger] block_ends_at(input, length);
    let headers = input.take(length);
    let block = headers.take(headers.len() - 4);
    assert(block =~= input.take(length - 4));
    let lines = text::split(decode_utf8(block), seq!['\r', '\n']);
    headers_announce_once(lines.skip(1));
    let body = requested_body(input, limits)->Ok_0;
    assert(block_ends_at(input, length));
    assert(body =~= input.subrange(length, length + body.len()));
}

/// What comes after a request that is taken changes nothing about it.
pub proof fn request_ends_with_its_body(
    input: Seq<u8>,
    more: Seq<u8>,
    limits: CallbackHttpLimits,
)
    requires
        requested_body(input, limits) is Ok,
    ensures
        requested_body(input + more, limits) == requested_body(input, limits),
{
    let limit = limits.header_limit() as int;
    let length = choose|length: int| length <= limit && #[trigger] block_ends_at(input, length);
    let longer = input + more;
    assert forall|shorter: int| 0 <= shorter <= input.len() implies #[trigger] longer.take(shorter)
        == input.take(shorter) by {
        assert(longer.take(shorter) =~= input.take(shorter));
    }
    assert(block_ends_at(longer, length));
    let other = choose|other: int| other <= limit && #[trigger] block_ends_at(longer, other);
    if other < length {
        assert(!ends_with_blank_line(longer.take(other)));
    } else if length < other {
        assert(!ends_with_blank_line(longer.take(length)));
    }
    let body = requested_body(input, limits)->Ok_0;
    assert(longer.subrange(length, length + body.len()) =~= input.subrange(
        length,
        length + body.len(),
    ));
}

/// Header lines are in order: each is a header, none speaks of an encoding, and the length, which
/// is a number, and the type of the body stand at most once each.
pub open spec fn are_in_order(lines: Seq<Seq<char>>) -> bool {
    &&& forall|i: int| 0 <= i < lines.len() ==> is_header(#[trigger] lines[i])
    &&& is_absent(lines, "transfer-encoding"@)
    &&& is_absent(lines, "content-type"@) || exists|place: int| #[trigger]
        is_only(lines, "content-type"@, place)
    &&& is_absent(lines, "content-length"@) || exists|place: int| #[trigger]
        is_only(lines, "content-length"@, place) && text::unsigned_number(
            value_of(lines[place]),
            usize::MAX as nat,
        ) is Some
}

/// Without its last line, an order of lines still holds, and a name of the last line is gone.
proof fn earlier_lines_are_in_order(lines: Seq<Seq<char>>)
    requires
        lines.len() > 0,
        are_in_order(lines),
    ensures
        are_in_order(lines.drop_last()),
        is_named(lines.last(), "content-length"@) ==> is_absent(
            lines.drop_last(),
            "content-length"@,
        ) && text::unsigned_number(value_of(lines.last()), usize::MAX as nat) is Some,
        is_named(lines.last(), "content-type"@) ==> is_absent(
            lines.drop_last(),
            "content-type"@,
        ),
{
    let earlier = lines.drop_last();
    let count = lines.len() - 1;
    assert(lines[count] == lines.last());
    assert forall|i: int| 0 <= i < earlier.len() implies #[trigger] earlier[i] == lines[i] by {}
    if !is_absent(earlier, "content-type"@) {
        let place = choose|place: int| #[trigger] is_only(lines, "content-type"@, place);
        let other = choose|other: int|
            0 <= other < earlier.len() && is_named(#[trigger] earlier[other], "content-type"@);
        assert(lines[other] == earlier[other]);
        assert(is_only(earlier, "content-type"@, place));
    }
    if !is_absent(earlier, "content-length"@) {
        let place = choose|place: int| #[trigger]
            is_only(lines, "content-length"@, place) && text::unsigned_number(
                value_of(lines[place]),
                usize::MAX as nat,
            ) is Some;
        let other = choose|other: int|
            0 <= other < earlier.len() && is_named(#[trigger] earlier[other], "content-length"@);
        assert(lines[other] == earlier[other]);
        assert(is_only(earlier, "content-length"@, place));
    }
}

/// Headers that are in order are taken.
pub proof fn headers_in_order_are_taken(lines: Seq<Seq<char>>)
    requires
        are_in_order(lines),
    ensures
        announced(lines) is Ok,
    decreases lines.len(),
{
    if lines.len() > 0 {
        earlier_lines_are_in_order(lines);
        headers_in_order_are_taken(lines.drop_last());
        headers_announce_once(lines.drop_last());
        let last = lines.last();
        assert(lines[lines.len() - 1] == last);
        names_are_told_apart(last.take(text::position(last, seq![':'])->0));
        text::position_is_first(last, seq![':']);
    }
}

/// A request whose header block is within its limit, begins with the request line, is in order and
/// announces the type of a transfer and a length within the limit is taken, once that many bytes
/// are there after the block.
pub proof fn request_in_order_is_taken(
    input: Seq<u8>,
    limits: CallbackHttpLimits,
    length: int,
    body: int,
    length_place: int,
    type_place: int,
)
    requires
        block_ends_at(input, length),
        length <= limits.header_limit(),
        valid_utf8(input.take(length - 4)),
        0 < body <= limits.body_limit(),
        length + body <= input.len(),
        ({
            let lines = text::split(decode_utf8(input.take(length - 4)), seq!['\r', '\n']);
            &&& lines[0] == "POST /callback HTTP/1.1"@
            &&& are_in_order(lines.skip(1))
            &&& is_only(lines.skip(1), "content-length"@, length_place)
            &&& text::unsigned_number(value_of(lines.skip(1)[length_place]), usize::MAX as nat)
                == Some(body as nat)
            &&& is_only(lines.skip(1), "content-type"@, type_place)
            &&& value_of(lines.skip(1)[type_place]) == "application/vnd.telchar.nomad-transfer"@
        }),
    ensures
        requested_body(input, limits) == Ok::<Seq<u8>, Fault>(
            input.subrange(length, length + body),
        ),
{
    let lines = text::split(decode_utf8(input.take(length - 4)), seq!['\r', '\n']);
    headers_in_order_are_taken(lines.skip(1));
    headers_announce_once(lines.skip(1));
    let limit = limits.header_limit() as int;
    let other = choose|other: int| other <= limit && #[trigger] block_ends_at(input, other);
    if other < length {
        assert(!ends_with_blank_line(input.take(other)));
    } else if length < other {
        assert(!ends_with_blank_line(input.take(length)));
    }
    let headers = input.take(length);
    assert(headers.take(headers.len() - 4) =~= input.take(length - 4));
}

} // verus!
