use telchar::fault::{Fault, FaultKind};
use telchar::nomad_callback_http::{
    body_length, handle_connection, header_progress, CallbackHttpLimits, HeaderProgress,
};

fn limits() -> CallbackHttpLimits {
    CallbackHttpLimits::new(512, 16)
}

fn request(headers: &str, body: &str) -> Vec<u8> {
    format!("POST /callback HTTP/1.1\r\n{headers}\r\n\r\n{body}").into_bytes()
}

const PROPER: &str = "Content-Length: 5\r\nContent-Type: application/vnd.telchar.nomad-transfer";

fn refusal(input: &[u8]) -> &'static str {
    let answer = handle_connection(input, limits(), |_: &str, _: &str, _: &[u8]| {
        panic!("a request that cannot be read is not admitted")
    });
    assert_eq!(
        answer.response,
        "HTTP/1.1 400 Bad Request\r\nContent-Length: 0\r\nConnection: close\r\n\r\n"
    );
    answer.outcome.unwrap_err().message
}

#[test]
fn admitted_request_has_no_content() {
    let answer = handle_connection(
        &request(PROPER, "hello and more"),
        limits(),
        |method: &str, path: &str, body: &[u8]| {
            assert_eq!((method, path, body), ("POST", "/callback", &b"hello"[..]));
            Ok(())
        },
    );
    assert!(answer.outcome.is_ok());
    assert_eq!(
        answer.response,
        "HTTP/1.1 204 No Content\r\nContent-Length: 0\r\nConnection: close\r\n\r\n"
    );
}

#[test]
fn request_that_is_not_admitted_is_forbidden() {
    let answer = handle_connection(
        &request(PROPER, "hello"),
        limits(),
        |_: &str, _: &str, _: &[u8]| {
            Err(Fault {
                kind: FaultKind::PermissionDenied,
                message: "no",
            })
        },
    );
    let fault = answer.outcome.unwrap_err();
    assert_eq!(fault.kind, FaultKind::PermissionDenied);
    assert_eq!(fault.message, "Nomad callback admission failed");
    assert!(answer.response.starts_with("HTTP/1.1 403 Forbidden\r\n"));
}

#[test]
fn bad_requests_are_told_apart() {
    assert_eq!(
        refusal(b"GET / HTTP/1.1\r\n\r\n"),
        "Nomad callback HTTP request line is invalid"
    );
    assert_eq!(
        refusal(b"POST /callback HTTP/1.1\r\n"),
        "Nomad callback HTTP headers are incomplete"
    );
    assert_eq!(
        refusal(&vec![b'a'; 600]),
        "Nomad callback HTTP headers exceed limit"
    );
    assert_eq!(
        refusal(&request("Content-Length:5", "")),
        "Nomad callback HTTP header is invalid"
    );
    assert_eq!(
        refusal(&request("Content-Length", "")),
        "Nomad callback HTTP header is invalid"
    );
    assert_eq!(
        refusal(&request("Content-Length: x", "")),
        "Nomad callback HTTP content length is invalid"
    );
    assert_eq!(
        refusal(&request("Content-Length: 5\r\ncontent-length: 5", "")),
        "Nomad callback HTTP content length is invalid"
    );
    assert_eq!(
        refusal(&request("Content-Type: text/plain", "")),
        "Nomad callback HTTP content length is missing"
    );
    assert_eq!(
        refusal(&request("Content-Length: 17", "")),
        "Nomad callback HTTP body length is invalid"
    );
    assert_eq!(
        refusal(&request("Content-Length: 0", "")),
        "Nomad callback HTTP body length is invalid"
    );
    assert_eq!(
        refusal(&request("Content-Length: 5\r\nContent-Type: text/plain", "hello")),
        "Nomad callback HTTP content type is invalid"
    );
    assert_eq!(
        refusal(&request("Transfer-Encoding: chunked", "")),
        "Nomad callback HTTP transfer encoding is unsupported"
    );
    assert_eq!(
        refusal(&request(PROPER, "hell")),
        "Nomad callback HTTP body is incomplete"
    );
    assert_eq!(
        refusal(b"POST /callback HTTP/1.1\r\nA: \xff\r\n\r\n"),
        "Nomad callback HTTP headers are invalid"
    );
}

#[test]
fn limits_have_to_be_positive() {
    let answer = handle_connection(
        &request(PROPER, "hello"),
        CallbackHttpLimits::new(0, 16),
        |_: &str, _: &str, _: &[u8]| Ok(()),
    );
    assert_eq!(
        answer.outcome.unwrap_err().message,
        "Nomad callback HTTP limits are invalid"
    );
}

#[test]
fn header_block_ends_with_an_empty_line() {
    assert_eq!(header_progress(b"a\r\n\r\n", limits()), HeaderProgress::Complete);
    assert_eq!(header_progress(b"a\r\n", limits()), HeaderProgress::Wanting);
    assert_eq!(
        header_progress(b"abc", CallbackHttpLimits::new(3, 1)),
        HeaderProgress::Exceeded
    );
    let headers = request(PROPER, "");
    assert_eq!(body_length(&headers, limits()).unwrap(), 5);
}
