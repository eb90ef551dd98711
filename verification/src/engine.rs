//! The engine: the route table shared read-only by all connections,
//! and the pure decision logic of one request/response cycle — parse,
//! resolve, invoke, negotiate gzip, honor `Connection: close`,
//! serialize.  The socket reads and writes, and the file work of the
//! file routes, stay with the caller: the engine says exactly what to
//! write and whether to keep the connection open.

use vstd::prelude::*;

use crate::bytes_util::{
    bytes_eq, dec_of, find_byte, find_byte_from, lemma_find_byte, trim_range, trimmed,
    usize_to_decimal,
};
use crate::gzip::{gzip_compress, gzip_of};
use crate::handler::{file_param, pure_response, Handler, Invocation};
use crate::headers::{lookup, put, Headers};
use crate::lit::{
    close_bytes, connection_bytes, content_encoding_bytes, content_length_bytes,
    content_type_bytes, gzip_bytes, lit_accept_encoding, lit_close, lit_connection,
    lit_content_encoding, lit_content_length, lit_content_type, lit_gzip, lit_octet_stream,
    lit_status_created, lit_status_not_found, lit_status_ok, accept_encoding_bytes,
    octet_stream_bytes, status_created_bytes, status_not_found_bytes, status_ok_bytes,
};
use crate::message::{
    serialized, HTTPMethod, HTTPRequest, HTTPResponse, HTTPVersion, ReqModel, RespModel,
};
use crate::parse::spec_parse_request;
use crate::router::{
    insert_route, models, path_segs, resolve, spec_register, spec_resolve, wf_table, Route,
    RouteModel,
};
use vstd::slice::slice_subrange;

verus! {

/// The request asked for the connection to be closed: a `Connection`
/// header equal to exactly `close`.
pub open spec fn wants_close(headers: Seq<(Seq<u8>, Seq<u8>)>) -> bool {
    lookup(headers, lit_connection()) == Some(lit_close())
}

/// Some comma-separated token of the value trims to exactly `gzip`.
pub open spec fn has_gzip_token(v: Seq<u8>) -> bool
    decreases v.len(),
{
    match find_byte(v, 44, 0) {
        None => trimmed(v) == lit_gzip(),
        Some(i) => {
            proof {
                lemma_find_byte(v, 44, 0);
            }
            trimmed(v.subrange(0, i as int)) == lit_gzip() || has_gzip_token(
                v.subrange(i as int + 1, v.len() as int),
            )
        },
    }
}

/// The request advertised gzip in `Accept-Encoding`.
pub open spec fn accepts_gzip(headers: Seq<(Seq<u8>, Seq<u8>)>) -> bool {
    match lookup(headers, lit_accept_encoding()) {
        Some(v) => has_gzip_token(v),
        None => false,
    }
}

/// `Connection: close`, decided on the parsed headers.
pub fn hdr_wants_close(h: &Headers) -> (r: bool)
    ensures
        r == wants_close(h@),
{
    let key = connection_bytes();
    match h.get(key.as_slice()) {
        Some(v) => {
            let c = close_bytes();
            bytes_eq(v.as_slice(), c.as_slice())
        },
        None => false,
    }
}

fn token_has_gzip(v: &[u8]) -> (r: bool)
    ensures
        r == has_gzip_token(v@),
{
    let n: usize = v.len();
    let g = gzip_bytes();
    let mut pos: usize = 0;
    proof {
        assert(v@.subrange(0, n as int) =~= v@);
    }
    loop
        invariant
            pos <= n,
            n == v@.len(),
            g@ == lit_gzip(),
            has_gzip_token(v@) == has_gzip_token(v@.subrange(pos as int, n as int)),
        decreases n - pos,
    {
        let suffix = slice_subrange(v, pos, n);
        match find_byte_from(suffix, 44, 0) {
            Some(i) => {
                proof {
                    lemma_find_byte(suffix@, 44, 0);
                }
                let tr = trim_range(suffix, 0, i);
                let tok = slice_subrange(suffix, tr.0, tr.1);
                if bytes_eq(tok, g.as_slice()) {
                    proof {
                        assert(has_gzip_token(suffix@));
                    }
                    return true;
                }
                proof {
                    assert(suffix@.subrange(i as int + 1, suffix@.len() as int) =~= v@.subrange(
                        pos + i + 1,
                        n as int,
                    ));
                }
                pos = pos + i + 1;
            },
            None => {
                let tr = trim_range(suffix, 0, suffix.len());
                let tok = slice_subrange(suffix, tr.0, tr.1);
                let r = bytes_eq(tok, g.as_slice());
                proof {
                    assert(suffix@.subrange(0, suffix@.len() as int) =~= suffix@);
                }
                return r;
            },
        }
    }
}

/// gzip advertised, decided on the parsed headers.
pub fn hdr_accepts_gzip(h: &Headers) -> (r: bool)
    ensures
        r == accepts_gzip(h@),
{
    let key = accept_encoding_bytes();
    match h.get(key.as_slice()) {
        Some(v) => token_has_gzip(v.as_slice()),
        None => false,
    }
}

/// What finishing a response does: when gzip was negotiated and a body
/// is present, the body is replaced by its gzip encoding exactly once,
/// with `Content-Encoding: gzip` set and `Content-Length` recomputed;
/// then `Connection: close` is added when the request asked for it.
pub open spec fn finalize_model(m: RespModel, gz: bool, close: bool) -> RespModel {
    let m1 = if gz {
        match m.body {
            Some(b) => RespModel {
                version: m.version,
                state: m.state,
                headers: put(
                    put(m.headers, lit_content_encoding(), lit_gzip()),
                    lit_content_length(),
                    dec_of(gzip_of(b).len()),
                ),
                body: Some(gzip_of(b)),
            },
            None => m,
        }
    } else {
        m
    };
    if close {
        RespModel {
            version: m1.version,
            state: m1.state,
            headers: put(m1.headers, lit_connection(), lit_close()),
            body: m1.body,
        }
    } else {
        m1
    }
}

/// Compression happens at most once per cycle: the finalized body is
/// the gzip encoding of the handler's own body — never of an already
/// compressed one — and is otherwise left untouched.
pub proof fn lemma_compress_once(m: RespModel, gz: bool, close: bool)
    ensures
        finalize_model(m, gz, close).body == (if gz {
            match m.body {
                Some(b) => Some(gzip_of(b)),
                None => None,
            }
        } else {
            m.body
        }),
{
}

/// Applies content negotiation and the close directive to a response.
pub fn finalize_response(resp: HTTPResponse, gz: bool, close: bool) -> (r: HTTPResponse)
    requires
        resp.wf(),
    ensures
        r@ == finalize_model(resp@, gz, close),
        r.wf(),
{
    let HTTPResponse { version, state, headers, body } = resp;
    let mut headers = headers;
    let body2: Option<Vec<u8>> = if gz {
        match body {
            Some(b) => {
                let c = gzip_compress(b.as_slice());
                headers.insert(content_encoding_bytes(), gzip_bytes());
                headers.insert(content_length_bytes(), usize_to_decimal(c.len()));
                Some(c)
            },
            None => None,
        }
    } else {
        body
    };
    if close {
        headers.insert(connection_bytes(), close_bytes());
    }
    HTTPResponse { version, state, headers, body: body2 }
}

/// The synthesized response for an unresolved path.
pub open spec fn not_found_model() -> RespModel {
    RespModel {
        version: HTTPVersion::HTTP1_1,
        state: lit_status_not_found(),
        headers: Seq::<(Seq<u8>, Seq<u8>)>::empty(),
        body: None,
    }
}

/// The response for a stored file.
pub open spec fn created_model() -> RespModel {
    RespModel {
        version: HTTPVersion::HTTP1_1,
        state: lit_status_created(),
        headers: Seq::<(Seq<u8>, Seq<u8>)>::empty(),
        body: None,
    }
}

/// The response for a served file: its contents as an octet stream
/// with their exact length.
pub open spec fn file_ok_model(c: Seq<u8>) -> RespModel {
    RespModel {
        version: HTTPVersion::HTTP1_1,
        state: lit_status_ok(),
        headers: put(
            put(Seq::<(Seq<u8>, Seq<u8>)>::empty(), lit_content_type(), lit_octet_stream()),
            lit_content_length(),
            dec_of(c.len()),
        ),
        body: Some(c),
    }
}

/// The file work a cycle needs before it can respond.
pub enum FileAction {
    /// Read the named file, then finish with its contents, or with
    /// nothing when it is absent.
    ReadFile { name: Vec<u8> },
    /// Create or truncate the named file and write the contents, then
    /// finish with whether opening succeeded.
    WriteFile { name: Vec<u8>, contents: Option<Vec<u8>> },
}

/// What one parsed message asks of the connection's owner.
pub enum CycleStep {
    /// Parse or handler failure: close the socket, write nothing.
    Fatal,
    /// Write these bytes; then keep the connection open, or close it
    /// when `close` is set.
    Respond { bytes: Vec<u8>, close: bool },
    /// Perform the file action, then finish the cycle with its outcome
    /// and the carried request.
    FileAction { action: FileAction, request: HTTPRequest },
}

/// Everything `handle_request` promises, step by step: how the input
/// parses, how the path resolves, what each handler produces, and the
/// exact bytes that negotiation, the close directive and serialization
/// make of it.
pub open spec fn cycle_post(tbl: Seq<RouteModel>, input: Seq<u8>, r: CycleStep) -> bool {
    match spec_parse_request(input) {
        None => r is Fatal,
        Some(req) => {
            let close = wants_close(req.headers);
            let gz = accepts_gzip(req.headers);
            match spec_resolve(tbl, req.method, path_segs(req.path)) {
                None => r matches CycleStep::Respond { bytes, close: c } && bytes@ == serialized(
                    finalize_model(not_found_model(), gz, close),
                ) && c == close,
                Some(hp) => {
                    let req2 = ReqModel {
                        method: req.method,
                        version: req.version,
                        path: req.path,
                        headers: req.headers,
                        body: req.body,
                        params: hp.1,
                    };
                    match hp.0 {
                        Handler::Root | Handler::Echo | Handler::UserAgent => r matches
                            CycleStep::Respond { bytes, close: c } && bytes@ == serialized(
                            finalize_model(pure_response(hp.0, req2), gz, close),
                        ) && c == close,
                        Handler::FileRead => r matches CycleStep::FileAction { action, request }
                            && action matches FileAction::ReadFile { name } && name@ == file_param(
                            hp.1,
                        ) && request@ == req2 && request.wf(),
                        Handler::FileWrite => r matches CycleStep::FileAction { action, request }
                            && action matches FileAction::WriteFile { name, contents } && name@
                            == file_param(hp.1) && (match contents {
                            Some(c) => Some(c@),
                            None => None,
                        }) == req2.body && request@ == req2 && request.wf(),
                    }
                },
            }
        },
    }
}

/// The engine: a route table built once, before any connection, and
/// read-only afterwards.
pub struct Engine {
    routes: Vec<Route>,
}

impl View for Engine {
    type V = Seq<RouteModel>;

    closed spec fn view(&self) -> Seq<RouteModel> {
        models(self.routes@)
    }
}

impl Engine {
    /// No two routes share a (method, pattern) pair.
    pub open spec fn wf(&self) -> bool {
        wf_table(self@)
    }

    pub fn new() -> (r: Engine)
        ensures
            r@ == Seq::<RouteModel>::empty(),
            r.wf(),
    {
        let r = Engine { routes: Vec::new() };
        proof {
            assert(r@ =~= Seq::<RouteModel>::empty());
        }
        r
    }

    /// Registers a handler under a method and path pattern; the first
    /// registration of a pair wins, deterministically.
    pub fn register(&mut self, method: HTTPMethod, pattern: &[u8], handler: Handler)
        requires
            old(self).wf(),
        ensures
            final(self)@ == spec_register(old(self)@, method, path_segs(pattern@), handler),
            final(self).wf(),
    {
        insert_route(&mut self.routes, method, pattern, handler);
    }

    /// Decides one request/response cycle on a buffered message.
    pub fn handle_request(&self, input: &[u8]) -> (r: CycleStep)
        requires
            self.wf(),
        ensures
            cycle_post(self@, input@, r),
    {
        let req = match HTTPRequest::parse(input) {
            Ok(rq) => rq,
            Err(_) => {
                return CycleStep::Fatal;
            },
        };
        let close = hdr_wants_close(&req.headers);
        let gz = hdr_accepts_gzip(&req.headers);
        match resolve(&self.routes, req.method, req.path.as_slice()) {
            None => {
                let resp = HTTPResponse::empty_with_state(status_not_found_bytes());
                let resp = finalize_response(resp, gz, close);
                CycleStep::Respond { bytes: resp.to_vec(), close }
            },
            Some((h, params)) => {
                let mut req = req;
                req.params = params;
                match h.invoke(&req) {
                    Ok(Invocation::Done(resp)) => {
                        let resp = finalize_response(resp, gz, close);
                        CycleStep::Respond { bytes: resp.to_vec(), close }
                    },
                    Ok(Invocation::NeedsRead(name)) => CycleStep::FileAction {
                        action: FileAction::ReadFile { name },
                        request: req,
                    },
                    Ok(Invocation::NeedsWrite(name, contents)) => CycleStep::FileAction {
                        action: FileAction::WriteFile { name, contents },
                        request: req,
                    },
                    Err(_) => CycleStep::Fatal,
                }
            },
        }
    }
}

/// Finishes a read-file cycle with the file's contents, or with
/// nothing when it was absent (a 404).  Returns the exact bytes to
/// write and whether to close the connection afterwards.
pub fn finish_file_read(request: &HTTPRequest, contents: Option<Vec<u8>>) -> (r: (Vec<u8>, bool))
    requires
        request.wf(),
    ensures
        r.1 == wants_close(request@.headers),
        r.0@ == serialized(
            finalize_model(
                match contents {
                    Some(c) => file_ok_model(c@),
                    None => not_found_model(),
                },
                accepts_gzip(request@.headers),
                wants_close(request@.headers),
            ),
        ),
{
    let close = hdr_wants_close(&request.headers);
    let gz = hdr_accepts_gzip(&request.headers);
    let resp = match contents {
        Some(c) => {
            let mut hs = Headers::new();
            hs.insert(content_type_bytes(), octet_stream_bytes());
            hs.insert(content_length_bytes(), usize_to_decimal(c.len()));
            HTTPResponse {
                version: HTTPVersion::HTTP1_1,
                state: status_ok_bytes(),
                headers: hs,
                body: Some(c),
            }
        },
        None => HTTPResponse::empty_with_state(status_not_found_bytes()),
    };
    let resp = finalize_response(resp, gz, close);
    (resp.to_vec(), close)
}

/// Finishes a write-file cycle: a 201 when the file could be created,
/// else a 404, as the file routes answer.  Returns the exact bytes to
/// write and whether to close the connection afterwards.
pub fn finish_file_write(request: &HTTPRequest, created: bool) -> (r: (Vec<u8>, bool))
    requires
        request.wf(),
    ensures
        r.1 == wants_close(request@.headers),
        r.0@ == serialized(
            finalize_model(
                if created {
                    created_model()
                } else {
                    not_found_model()
                },
                accepts_gzip(request@.headers),
                wants_close(request@.headers),
            ),
        ),
{
    let close = hdr_wants_close(&request.headers);
    let gz = hdr_accepts_gzip(&request.headers);
    let resp = if created {
        HTTPResponse::empty_with_state(status_created_bytes())
    } else {
        HTTPResponse::empty_with_state(status_not_found_bytes())
    };
    let resp = finalize_response(resp, gz, close);
    (resp.to_vec(), close)
}

} // verus!
