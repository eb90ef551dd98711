use httpd_core::engine::{finish_file_read, finish_file_write, CycleStep, Engine, FileAction};
use httpd_core::handler::Handler;
use httpd_core::message::HTTPMethod;
use std::io::Read;

fn sample_engine() -> Engine {
    let mut e = Engine::new();
    e.register(HTTPMethod::Get, b"/", Handler::Root);
    e.register(HTTPMethod::Get, b"/echo/{echo}", Handler::Echo);
    e.register(HTTPMethod::Get, b"/user-agent", Handler::UserAgent);
    e.register(HTTPMethod::Get, b"/files/{file}", Handler::FileRead);
    e.register(HTTPMethod::Post, b"/files/{file}", Handler::FileWrite);
    e
}

fn respond_bytes(step: CycleStep) -> (Vec<u8>, bool) {
    match step {
        CycleStep::Respond { bytes, close } => (bytes, close),
        _ => panic!("expected a response"),
    }
}

/// Splits a serialized response into (status line, header lines, body).
fn split_response(bytes: &[u8]) -> (Vec<u8>, Vec<Vec<u8>>, Vec<u8>) {
    let sep = b"\r\n\r\n";
    let pos = bytes
        .windows(4)
        .position(|w| w == sep)
        .expect("no header terminator");
    let head = &bytes[..pos];
    let body = bytes[pos + 4..].to_vec();
    let mut lines = head.split(|&b| b == b'\n').map(|l| {
        let mut l = l.to_vec();
        if l.last() == Some(&b'\r') {
            l.pop();
        }
        l
    });
    let status = lines.next().unwrap();
    (status, lines.collect(), body)
}

fn gunzip(data: &[u8]) -> Vec<u8> {
    let mut out = Vec::new();
    flate2::read::GzDecoder::new(data).read_to_end(&mut out).unwrap();
    out
}

#[test]
fn echo_without_negotiation() {
    let e = sample_engine();
    let (bytes, close) = respond_bytes(e.handle_request(b"GET /echo/abc HTTP/1.1\r\n\r\n"));
    assert_eq!(
        bytes,
        b"HTTP/1.1 200 OK\r\nContent-Type: text/plain\r\nContent-Length: 3\r\n\r\nabc".to_vec()
    );
    assert!(!close);
}

#[test]
fn echo_with_gzip_negotiation() {
    let e = sample_engine();
    let (bytes, close) = respond_bytes(
        e.handle_request(b"GET /echo/abc HTTP/1.1\r\nAccept-Encoding: gzip\r\n\r\n"),
    );
    assert!(!close);
    let (status, headers, body) = split_response(&bytes);
    assert_eq!(status, b"HTTP/1.1 200 OK".to_vec());
    assert!(headers.contains(&b"Content-Encoding: gzip".to_vec()));
    let mut expected_len = b"Content-Length: ".to_vec();
    expected_len.extend_from_slice(body.len().to_string().as_bytes());
    assert!(headers.contains(&expected_len));
    assert_eq!(gunzip(&body), b"abc".to_vec());
    // The body really was transformed, not handed back unchanged.
    assert_ne!(body, b"abc".to_vec());
}

#[test]
fn gzip_applied_exactly_once() {
    let e = sample_engine();
    let (bytes, _) = respond_bytes(
        e.handle_request(b"GET /echo/abc HTTP/1.1\r\nAccept-Encoding: gzip\r\n\r\n"),
    );
    let (_, _, body) = split_response(&bytes);
    // One decompression yields the original text; the body is not a
    // doubly compressed stream.
    assert_eq!(gunzip(&body), b"abc".to_vec());
    let mut enc =
        flate2::write::GzEncoder::new(Vec::new(), flate2::Compression::default());
    std::io::Write::write_all(&mut enc, b"abc").unwrap();
    let once = enc.finish().unwrap();
    assert_eq!(body, once);
}

#[test]
fn gzip_token_list_trimmed() {
    let e = sample_engine();
    let (bytes, _) = respond_bytes(e.handle_request(
        b"GET /echo/ab HTTP/1.1\r\nAccept-Encoding: deflate , gzip , br\r\n\r\n",
    ));
    let (_, headers, body) = split_response(&bytes);
    assert!(headers.contains(&b"Content-Encoding: gzip".to_vec()));
    assert_eq!(gunzip(&body), b"ab".to_vec());
}

#[test]
fn gzip_token_match_is_exact_and_case_sensitive() {
    let e = sample_engine();
    for hdr in [&b"GZIP"[..], &b"gzipx"[..], &b"x-gzip"[..]] {
        let mut req = b"GET /echo/abc HTTP/1.1\r\nAccept-Encoding: ".to_vec();
        req.extend_from_slice(hdr);
        req.extend_from_slice(b"\r\n\r\n");
        let (bytes, _) = respond_bytes(e.handle_request(&req));
        let (_, headers, body) = split_response(&bytes);
        assert!(!headers.contains(&b"Content-Encoding: gzip".to_vec()));
        assert_eq!(body, b"abc".to_vec());
    }
}

#[test]
fn unknown_path_is_not_found_with_empty_body() {
    let e = sample_engine();
    let (bytes, close) = respond_bytes(e.handle_request(b"GET /nonexistent HTTP/1.1\r\n\r\n"));
    assert_eq!(bytes, b"HTTP/1.1 404 Not Found\r\n\r\n".to_vec());
    assert!(!close);
}

#[test]
fn file_store_then_serve_round_trip() {
    let e = sample_engine();
    // Store: the cycle asks for a file write with the request body.
    let step = e.handle_request(
        b"POST /files/test.txt HTTP/1.1\r\nContent-Length: 2\r\n\r\nhi",
    );
    let mut stored: Option<Vec<u8>> = None;
    match step {
        CycleStep::FileAction { action, request } => {
            match action {
                FileAction::WriteFile { name, contents } => {
                    assert_eq!(name, b"test.txt".to_vec());
                    assert_eq!(contents, Some(b"hi".to_vec()));
                    stored = contents;
                },
                _ => panic!("expected a file write"),
            }
            let (bytes, close) = finish_file_write(&request, true);
            assert_eq!(bytes, b"HTTP/1.1 201 Created\r\n\r\n".to_vec());
            assert!(!close);
        },
        _ => panic!("expected a file action"),
    }
    // Serve: the second call returns 200 with the stored body.
    let step = e.handle_request(b"GET /files/test.txt HTTP/1.1\r\n\r\n");
    match step {
        CycleStep::FileAction { action, request } => {
            match action {
                FileAction::ReadFile { name } => assert_eq!(name, b"test.txt".to_vec()),
                _ => panic!("expected a file read"),
            }
            let (bytes, close) = finish_file_read(&request, stored);
            assert_eq!(
                bytes,
                b"HTTP/1.1 200 OK\r\nContent-Type: application/octet-stream\r\nContent-Length: 2\r\n\r\nhi"
                    .to_vec()
            );
            assert!(!close);
        },
        _ => panic!("expected a file action"),
    }
}

#[test]
fn absent_file_serves_not_found() {
    let e = sample_engine();
    let step = e.handle_request(b"GET /files/missing HTTP/1.1\r\n\r\n");
    match step {
        CycleStep::FileAction { request, .. } => {
            let (bytes, _) = finish_file_read(&request, None);
            assert_eq!(bytes, b"HTTP/1.1 404 Not Found\r\n\r\n".to_vec());
        },
        _ => panic!("expected a file action"),
    }
}

#[test]
fn failed_file_store_answers_not_found() {
    let e = sample_engine();
    let step = e.handle_request(b"POST /files/x HTTP/1.1\r\n\r\n");
    match step {
        CycleStep::FileAction { action, request } => {
            match action {
                FileAction::WriteFile { contents, .. } => assert_eq!(contents, None),
                _ => panic!("expected a file write"),
            }
            let (bytes, _) = finish_file_write(&request, false);
            assert_eq!(bytes, b"HTTP/1.1 404 Not Found\r\n\r\n".to_vec());
        },
        _ => panic!("expected a file action"),
    }
}

#[test]
fn connection_close_is_echoed_and_closes() {
    let e = sample_engine();
    let (bytes, close) =
        respond_bytes(e.handle_request(b"GET / HTTP/1.1\r\nConnection: close\r\n\r\n"));
    assert_eq!(bytes, b"HTTP/1.1 200 OK\r\nConnection: close\r\n\r\n".to_vec());
    assert!(close);
}

#[test]
fn connection_close_must_match_exactly() {
    let e = sample_engine();
    let (_, close) =
        respond_bytes(e.handle_request(b"GET / HTTP/1.1\r\nConnection: keep-alive\r\n\r\n"));
    assert!(!close);
    let (_, close) =
        respond_bytes(e.handle_request(b"GET / HTTP/1.1\r\nConnection: Close\r\n\r\n"));
    assert!(!close);
}

#[test]
fn malformed_start_line_is_fatal_without_bytes() {
    let e = sample_engine();
    assert!(matches!(e.handle_request(b"BAD\r\n\r\n"), CycleStep::Fatal));
    assert!(matches!(e.handle_request(b"\r\n\r\n"), CycleStep::Fatal));
}

#[test]
fn user_agent_is_echoed() {
    let e = sample_engine();
    let (bytes, _) = respond_bytes(
        e.handle_request(b"GET /user-agent HTTP/1.1\r\nUser-Agent: foobar/1.2.3\r\n\r\n"),
    );
    assert_eq!(
        bytes,
        b"HTTP/1.1 200 OK\r\nContent-Type: text/plain\r\nContent-Length: 12\r\n\r\nfoobar/1.2.3"
            .to_vec()
    );
}

#[test]
fn missing_user_agent_echoes_empty() {
    let e = sample_engine();
    let (bytes, _) = respond_bytes(e.handle_request(b"GET /user-agent HTTP/1.1\r\n\r\n"));
    assert_eq!(
        bytes,
        b"HTTP/1.1 200 OK\r\nContent-Type: text/plain\r\nContent-Length: 0\r\n\r\n".to_vec()
    );
}

#[test]
fn content_length_renders_multi_digit_lengths() {
    let e = sample_engine();
    let (bytes, _) =
        respond_bytes(e.handle_request(b"GET /echo/0123456789 HTTP/1.1\r\n\r\n"));
    let (_, headers, body) = split_response(&bytes);
    assert!(headers.contains(&b"Content-Length: 10".to_vec()));
    assert_eq!(body, b"0123456789".to_vec());
}

#[test]
fn gzip_negotiated_file_serve_compresses() {
    let e = sample_engine();
    let step = e.handle_request(
        b"GET /files/data.bin HTTP/1.1\r\nAccept-Encoding: gzip\r\n\r\n",
    );
    match step {
        CycleStep::FileAction { request, .. } => {
            let (bytes, _) = finish_file_read(&request, Some(b"payload".to_vec()));
            let (status, headers, body) = split_response(&bytes);
            assert_eq!(status, b"HTTP/1.1 200 OK".to_vec());
            assert!(headers.contains(&b"Content-Encoding: gzip".to_vec()));
            assert_eq!(gunzip(&body), b"payload".to_vec());
        },
        _ => panic!("expected a file action"),
    }
}
