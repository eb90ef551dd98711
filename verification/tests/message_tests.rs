use httpd_core::headers::Headers;
use httpd_core::message::{HTTPMethod, HTTPRequest, HTTPResponse, HTTPVersion};

#[test]
fn parse_simple_get() {
    let req = HTTPRequest::parse(b"GET / HTTP/1.1\r\n\r\n").unwrap();
    assert_eq!(req.method, HTTPMethod::Get);
    assert_eq!(req.version, HTTPVersion::HTTP1_1);
    assert_eq!(req.path, b"/".to_vec());
    assert_eq!(req.headers.len(), 0);
    assert!(req.body.is_none());
    assert_eq!(req.params.len(), 0);
}

#[test]
fn parse_post_with_headers_and_body() {
    let req = HTTPRequest::parse(
        b"POST /files/a.txt HTTP/1.0\r\nHost: localhost\r\nContent-Length: 2\r\n\r\nhi",
    )
    .unwrap();
    assert_eq!(req.method, HTTPMethod::Post);
    assert_eq!(req.version, HTTPVersion::HTTP1_0);
    assert_eq!(req.path, b"/files/a.txt".to_vec());
    assert_eq!(req.headers.get(b"Host").unwrap(), &b"localhost".to_vec());
    assert_eq!(req.headers.get(b"Content-Length").unwrap(), &b"2".to_vec());
    assert_eq!(req.body.unwrap(), b"hi".to_vec());
}

#[test]
fn parse_versions() {
    for (tok, v) in [
        (&b"HTTP/1.0"[..], HTTPVersion::HTTP1_0),
        (&b"HTTP/1.1"[..], HTTPVersion::HTTP1_1),
        (&b"HTTP/2"[..], HTTPVersion::HTTP2),
        (&b"HTTP/3"[..], HTTPVersion::HTTP3),
    ] {
        let mut line = b"GET / ".to_vec();
        line.extend_from_slice(tok);
        line.extend_from_slice(b"\r\n\r\n");
        let req = HTTPRequest::parse(&line).unwrap();
        assert_eq!(req.version, v);
    }
}

#[test]
fn parse_rejects_malformed_start_lines() {
    assert!(HTTPRequest::parse(b"BAD\r\n\r\n").is_err());
    assert!(HTTPRequest::parse(b"GET /\r\n\r\n").is_err());
    assert!(HTTPRequest::parse(b"GET / HTTP/1.1 extra\r\n\r\n").is_err());
    assert!(HTTPRequest::parse(b"PUT / HTTP/1.1\r\n\r\n").is_err());
    assert!(HTTPRequest::parse(b"GET / HTTP/9\r\n\r\n").is_err());
    assert!(HTTPRequest::parse(b"").is_err());
}

#[test]
fn parse_header_splits_on_first_colon_space() {
    let req = HTTPRequest::parse(b"GET / HTTP/1.1\r\nX: a: b\r\n\r\n").unwrap();
    assert_eq!(req.headers.get(b"X").unwrap(), &b"a: b".to_vec());
}

#[test]
fn parse_duplicate_header_last_write_wins() {
    let req = HTTPRequest::parse(b"GET / HTTP/1.1\r\nA: 1\r\nA: 2\r\n\r\n").unwrap();
    assert_eq!(req.headers.len(), 1);
    assert_eq!(req.headers.get(b"A").unwrap(), &b"2".to_vec());
}

#[test]
fn parse_malformed_header_line_ends_header_section() {
    let req = HTTPRequest::parse(b"GET / HTTP/1.1\r\nA: 1\r\nnocolon\r\nB: 2\r\n\r\n").unwrap();
    assert_eq!(req.headers.len(), 1);
    assert!(req.headers.get(b"B").is_none());
    // Everything after the terminating line is the body, verbatim.
    assert_eq!(req.body.unwrap(), b"B: 2\r\n\r\n".to_vec());
}

#[test]
fn parse_body_keeps_inner_crlf_verbatim() {
    let req = HTTPRequest::parse(b"GET / HTTP/1.1\r\n\r\nline1\r\nline2").unwrap();
    assert_eq!(req.body.unwrap(), b"line1\r\nline2".to_vec());
}

#[test]
fn parse_empty_body_stays_none() {
    let req = HTTPRequest::parse(b"GET / HTTP/1.1\r\nHost: x\r\n\r\n").unwrap();
    assert!(req.body.is_none());
}

#[test]
fn default_request_is_get_root() {
    let req = HTTPRequest::default();
    assert_eq!(req.method, HTTPMethod::Get);
    assert_eq!(req.version, HTTPVersion::HTTP1_1);
    assert_eq!(req.path, b"/".to_vec());
    assert!(req.body.is_none());
}

#[test]
fn version_tokens() {
    assert_eq!(HTTPVersion::HTTP1_0.to_vec(), b"HTTP/1.0".to_vec());
    assert_eq!(HTTPVersion::HTTP1_1.to_vec(), b"HTTP/1.1".to_vec());
    assert_eq!(HTTPVersion::HTTP2.to_vec(), b"HTTP/2".to_vec());
    assert_eq!(HTTPVersion::HTTP3.to_vec(), b"HTTP/3".to_vec());
}

#[test]
fn serialize_minimal_response_round_trip_bytes() {
    // The minimal response of the wire-format example, byte-identical
    // under the pinned (insertion) header order.
    let mut headers = Headers::new();
    headers.insert(b"Content-Type".to_vec(), b"text/plain".to_vec());
    headers.insert(b"Content-Length".to_vec(), b"5".to_vec());
    let resp = HTTPResponse {
        version: HTTPVersion::HTTP1_1,
        state: b"200 OK".to_vec(),
        headers,
        body: Some(b"hello".to_vec()),
    };
    assert_eq!(
        resp.to_vec(),
        b"HTTP/1.1 200 OK\r\nContent-Type: text/plain\r\nContent-Length: 5\r\n\r\nhello".to_vec()
    );
    // Serializing the same value again reproduces the same bytes.
    assert_eq!(resp.to_vec(), resp.to_vec());
}

#[test]
fn serialize_headerless_bodyless_response() {
    let resp = HTTPResponse::empty_with_state(b"404 Not Found".to_vec());
    assert_eq!(resp.to_vec(), b"HTTP/1.1 404 Not Found\r\n\r\n".to_vec());
}

#[test]
fn headers_insert_replaces_in_place() {
    let mut h = Headers::new();
    h.insert(b"A".to_vec(), b"1".to_vec());
    h.insert(b"B".to_vec(), b"2".to_vec());
    h.insert(b"A".to_vec(), b"3".to_vec());
    assert_eq!(h.len(), 2);
    assert_eq!(h.key_at(0), &b"A".to_vec());
    assert_eq!(h.value_at(0), &b"3".to_vec());
    assert_eq!(h.key_at(1), &b"B".to_vec());
    assert_eq!(h.get(b"A").unwrap(), &b"3".to_vec());
    assert!(h.get(b"C").is_none());
}
