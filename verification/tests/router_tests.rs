use httpd_core::engine::{CycleStep, Engine};
use httpd_core::handler::Handler;
use httpd_core::message::HTTPMethod;

fn sample_engine() -> Engine {
    let mut e = Engine::new();
    e.register(HTTPMethod::Get, b"/", Handler::Root);
    e.register(HTTPMethod::Get, b"/echo/{echo}", Handler::Echo);
    e.register(HTTPMethod::Get, b"/user-agent", Handler::UserAgent);
    e.register(HTTPMethod::Get, b"/files/{file}", Handler::FileRead);
    e.register(HTTPMethod::Post, b"/files/{file}", Handler::FileWrite);
    e
}

fn respond_bytes(step: CycleStep) -> (Vec<u8>, bool) {
    match step {
        CycleStep::Respond { bytes, close } => (bytes, close),
        _ => panic!("expected a response"),
    }
}

#[test]
fn literal_route_resolves_to_its_handler_with_no_params() {
    let e = sample_engine();
    let (bytes, _) = respond_bytes(e.handle_request(b"GET / HTTP/1.1\r\n\r\n"));
    assert_eq!(bytes, b"HTTP/1.1 200 OK\r\n\r\n".to_vec());
}

#[test]
fn wildcard_binds_exactly_the_matched_segment() {
    let e = sample_engine();
    let step = e.handle_request(b"GET /files/report.txt HTTP/1.1\r\n\r\n");
    match step {
        CycleStep::FileAction { action, request } => match action {
            httpd_core::engine::FileAction::ReadFile { name } => {
                assert_eq!(name, b"report.txt".to_vec());
                assert_eq!(
                    request.params.get(b"file").unwrap(),
                    &b"report.txt".to_vec()
                );
                assert!(!name.contains(&b'/'));
            },
            _ => panic!("expected a file read"),
        },
        _ => panic!("expected a file action"),
    }
}

#[test]
fn wildcard_requires_nonempty_segment() {
    let e = sample_engine();
    let (bytes, _) = respond_bytes(e.handle_request(b"GET /echo/ HTTP/1.1\r\n\r\n"));
    assert_eq!(bytes, b"HTTP/1.1 404 Not Found\r\n\r\n".to_vec());
}

#[test]
fn segment_counts_must_agree() {
    let e = sample_engine();
    let (bytes, _) = respond_bytes(e.handle_request(b"GET /echo/a/b HTTP/1.1\r\n\r\n"));
    assert_eq!(bytes, b"HTTP/1.1 404 Not Found\r\n\r\n".to_vec());
}

#[test]
fn wrong_method_is_not_found() {
    let e = sample_engine();
    let (bytes, _) = respond_bytes(e.handle_request(b"POST /user-agent HTTP/1.1\r\n\r\n"));
    assert_eq!(bytes, b"HTTP/1.1 404 Not Found\r\n\r\n".to_vec());
}

#[test]
fn literal_route_beats_earlier_wildcard() {
    let mut e = Engine::new();
    e.register(HTTPMethod::Get, b"/echo/{echo}", Handler::Echo);
    e.register(HTTPMethod::Get, b"/echo/fixed", Handler::Root);
    let (bytes, _) = respond_bytes(e.handle_request(b"GET /echo/fixed HTTP/1.1\r\n\r\n"));
    // The literal pattern wins, so the root handler answers: no body.
    assert_eq!(bytes, b"HTTP/1.1 200 OK\r\n\r\n".to_vec());
    // Other paths still reach the wildcard.
    let (bytes, _) = respond_bytes(e.handle_request(b"GET /echo/zzz HTTP/1.1\r\n\r\n"));
    assert_eq!(
        bytes,
        b"HTTP/1.1 200 OK\r\nContent-Type: text/plain\r\nContent-Length: 3\r\n\r\nzzz".to_vec()
    );
}

#[test]
fn first_registration_of_a_pair_wins() {
    let mut e = Engine::new();
    e.register(HTTPMethod::Get, b"/x", Handler::Root);
    e.register(HTTPMethod::Get, b"/x", Handler::Echo);
    let (bytes, _) = respond_bytes(e.handle_request(b"GET /x HTTP/1.1\r\n\r\n"));
    assert_eq!(bytes, b"HTTP/1.1 200 OK\r\n\r\n".to_vec());
}

#[test]
fn empty_table_resolves_nothing() {
    let e = Engine::new();
    let (bytes, _) = respond_bytes(e.handle_request(b"GET / HTTP/1.1\r\n\r\n"));
    assert_eq!(bytes, b"HTTP/1.1 404 Not Found\r\n\r\n".to_vec());
}
