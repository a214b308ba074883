use chttp::error::Error;
use chttp::options::HttpVersion;
use chttp::request::Method;
use chttp::request::Request;
use chttp::transfer::Phase;
use chttp::transfer::TransferState;
use chttp::transfer::into_response;
use chttp::transfer::parse_status_line;

#[test]
fn status_line_http11_200() {
    let r = parse_status_line(b"HTTP/1.1 200 OK\r\n");
    assert_eq!(r, Some((HttpVersion::Http11, 200)));
}

#[test]
fn status_line_all_known_versions() {
    assert_eq!(
        parse_status_line(b"HTTP/2.0 204 No Content\r\n"),
        Some((HttpVersion::Http2, 204))
    );
    assert_eq!(parse_status_line(b"HTTP/1.0 301 Moved\r\n"), Some((HttpVersion::Http10, 301)));
    assert_eq!(parse_status_line(b"HTTP/0.9 200 OK\r\n"), Some((HttpVersion::Http09, 200)));
}

#[test]
fn status_line_unknown_version_maps_to_default() {
    // An unrecognized version token is not a parse failure by itself.
    let r = parse_status_line(b"HTTP/9.9 404 Not Found\r\n");
    assert_eq!(r, Some((HttpVersion::Http11, 404)));
}

#[test]
fn status_line_bad_code_rejected() {
    assert_eq!(parse_status_line(b"HTTP/1.1 XXX OK\r\n"), None);
    assert_eq!(parse_status_line(b"HTTP/1.1 099 OK\r\n"), None);
    assert_eq!(parse_status_line(b"HTTP/1.1"), None);
}

#[test]
fn transfer_parses_status_then_headers() {
    let mut s = TransferState::new(Vec::new());
    assert_eq!(s.phase, Phase::AwaitingStatusLine);
    assert!(s.header(b"HTTP/1.1 200 OK\r\n"));
    assert_eq!(s.phase, Phase::ReadingHeaders);
    assert_eq!(s.version, HttpVersion::Http11);
    assert_eq!(s.status, 200);
    assert!(s.header(b"Content-Type: text/plain\r\n"));
    assert!(s.header(b"\r\n"));
    assert_eq!(s.phase, Phase::StreamingBody);
    assert_eq!(s.headers.len(), 1);
    assert_eq!(s.headers[0].name, b"Content-Type".to_vec());
    assert_eq!(s.headers[0].value, b"text/plain".to_vec());
}

#[test]
fn duplicate_headers_survive_in_order() {
    let mut s = TransferState::new(Vec::new());
    assert!(s.header(b"HTTP/1.1 200 OK\r\n"));
    assert!(s.header(b"Set-Cookie: a=1\r\n"));
    assert!(s.header(b"Other: x\r\n"));
    assert!(s.header(b"Set-Cookie: b=2\r\n"));
    assert_eq!(s.headers.len(), 3);
    assert_eq!(s.headers[0].name, b"Set-Cookie".to_vec());
    assert_eq!(s.headers[0].value, b"a=1".to_vec());
    assert_eq!(s.headers[1].name, b"Other".to_vec());
    assert_eq!(s.headers[2].name, b"Set-Cookie".to_vec());
    assert_eq!(s.headers[2].value, b"b=2".to_vec());
}

#[test]
fn header_value_is_trimmed() {
    let mut s = TransferState::new(Vec::new());
    assert!(s.header(b"HTTP/1.1 200 OK\r\n"));
    assert!(s.header(b"Name:   padded value  \r\n"));
    assert_eq!(s.headers[0].value, b"padded value".to_vec());
}

#[test]
fn garbage_header_line_fails_transfer() {
    let mut s = TransferState::new(Vec::new());
    assert!(s.header(b"HTTP/1.1 200 OK\r\n"));
    assert!(!s.header(b"no colon in this line\r\n"));
}

#[test]
fn line_before_status_line_is_rejected() {
    let mut s = TransferState::new(Vec::new());
    assert!(!s.header(b"Content-Type: text/plain\r\n"));
}

#[test]
fn malformed_status_line_fails_transfer() {
    let mut s = TransferState::new(Vec::new());
    assert!(!s.header(b"HTTP/1.1 XYZ\r\n"));
    assert_eq!(s.phase, Phase::AwaitingStatusLine);
}

#[test]
fn outbound_body_is_pulled_in_chunks() {
    let mut s = TransferState::new(b"hello world".to_vec());
    assert_eq!(s.read(5), b"hello".to_vec());
    assert_eq!(s.read(5), b" worl".to_vec());
    assert_eq!(s.read(5), b"d".to_vec());
    // An empty result signals end-of-body.
    assert_eq!(s.read(5), Vec::<u8>::new());
}

#[test]
fn into_response_passes_engine_error_through() {
    let s = TransferState::new(Vec::new());
    let r = into_response(&s, Err(56));
    assert!(matches!(r, Err(Error::TransferEngineError(56))));
}

#[test]
fn into_response_without_headers_is_malformed() {
    let mut s = TransferState::new(Vec::new());
    assert!(s.header(b"HTTP/1.1 200 OK\r\n"));
    // Header section never terminated: no response is owed.
    let r = into_response(&s, Ok(()));
    assert!(matches!(r, Err(Error::MalformedResponse)));
}

#[test]
fn into_response_snapshot_is_faithful() {
    let mut s = TransferState::new(Vec::new());
    assert!(s.header(b"HTTP/1.1 201 Created\r\n"));
    assert!(s.header(b"Set-Cookie: a=1\r\n"));
    assert!(s.header(b"Set-Cookie: b=2\r\n"));
    assert!(s.header(b"\r\n"));
    let r = into_response(&s, Ok(())).unwrap();
    assert_eq!(r.version, HttpVersion::Http11);
    assert_eq!(r.status, 201);
    assert_eq!(r.headers.len(), 2);
    assert_eq!(r.headers[0].value, b"a=1".to_vec());
    assert_eq!(r.headers[1].value, b"b=2".to_vec());
}

#[test]
fn request_build_validates_uri() {
    let q = Request::build(Method::Get, b"http://example.com/", Vec::new()).unwrap();
    assert_eq!(q.method, Method::Get);
    assert_eq!(q.uri, b"http://example.com/".to_vec());
    assert!(q.body.is_empty());

    let bad = Request::build(Method::Get, b"", Vec::new());
    assert!(matches!(bad, Err(Error::RequestBuildError)));
    let bad = Request::build(Method::Get, b"http://example.com/a b", Vec::new());
    assert!(matches!(bad, Err(Error::RequestBuildError)));
}

#[test]
fn request_headers_keep_order() {
    let mut q = Request::build(Method::Post, b"http://example.com/", b"x".to_vec()).unwrap();
    q.header(b"Accept", b"*/*").unwrap();
    q.header(b"Accept", b"text/plain").unwrap();
    assert_eq!(q.headers.len(), 2);
    assert_eq!(q.headers[0].value, b"*/*".to_vec());
    assert_eq!(q.headers[1].value, b"text/plain".to_vec());
}

#[test]
fn malformed_request_header_is_a_build_error() {
    let mut q = Request::build(Method::Get, b"http://example.com/", Vec::new()).unwrap();
    assert!(matches!(q.header(b"", b"v"), Err(Error::RequestBuildError)));
    assert!(matches!(q.header(b"Na me", b"v"), Err(Error::RequestBuildError)));
    assert!(matches!(q.header(b"Na:me", b"v"), Err(Error::RequestBuildError)));
    assert!(matches!(q.header(b"Name", b"bad\xFFbyte"), Err(Error::RequestBuildError)));
    assert!(matches!(q.header(b"Name", b"two\r\nlines"), Err(Error::RequestBuildError)));
    assert!(q.headers.is_empty(), "nothing was appended");
}

#[test]
fn error_descriptions_are_nonempty() {
    for e in [
        Error::RequestBuildError,
        Error::TooManyConnections,
        Error::TransferEngineError(7),
        Error::MalformedResponse,
        Error::ChannelFailure,
    ] {
        assert!(!e.description().is_empty());
    }
}

#[test]
fn minimal_status_line_parses() {
    // Exactly version, separator, and the three digits.
    assert_eq!(parse_status_line(b"HTTP/1.1 200"), Some((HttpVersion::Http11, 200)));
}

#[test]
fn header_without_space_and_empty_value() {
    let mut s = TransferState::new(Vec::new());
    assert!(s.header(b"HTTP/1.1 200 OK\r\n"));
    assert!(s.header(b"Name:value\r\n"));
    assert!(s.header(b"Empty:\r\n"));
    assert_eq!(s.headers[0].value, b"value".to_vec());
    assert_eq!(s.headers[1].name, b"Empty".to_vec());
    assert_eq!(s.headers[1].value, Vec::<u8>::new());
}

#[test]
fn inbound_body_chunks_accumulate_in_order() {
    let mut s = TransferState::new(Vec::new());
    assert!(s.header(b"HTTP/1.1 200 OK\r\n"));
    assert!(s.header(b"\r\n"));
    assert_eq!(s.write(b"first "), 6);
    assert_eq!(s.write(b"second"), 6);
    s.finish();
    assert_eq!(s.phase, Phase::Complete);
    let (out, resume) = s.buffer.read(100);
    assert_eq!(out, b"first second".to_vec());
    assert!(!resume);
}

#[test]
fn non_utf8_status_line_fails_transfer() {
    let mut s = TransferState::new(Vec::new());
    // A decodable-looking status line carrying an invalid byte is
    // still rejected, and the parser state does not move.
    assert!(!s.header(b"HTTP/1.1 200 \xFF\r\n"));
    assert_eq!(s.phase, Phase::AwaitingStatusLine);
    assert_eq!(s.status, 0);
}

#[test]
fn non_utf8_header_line_fails_transfer() {
    let mut s = TransferState::new(Vec::new());
    assert!(s.header(b"HTTP/1.1 200 OK\r\n"));
    assert!(!s.header(b"Name: \xC3\x28\r\n"), "a bad continuation byte is rejected");
    assert!(!s.header(b"Name: \xED\xA0\x80\r\n"), "a surrogate encoding is rejected");
    assert_eq!(s.headers.len(), 0);
}

#[test]
fn multibyte_utf8_header_is_accepted() {
    let mut s = TransferState::new(Vec::new());
    assert!(s.header(b"HTTP/1.1 200 OK\r\n"));
    assert!(s.header("Name: caf\u{e9} \u{2713} \u{1f600}\r\n".as_bytes()));
    assert_eq!(s.headers[0].value, "caf\u{e9} \u{2713} \u{1f600}".as_bytes().to_vec());
}
