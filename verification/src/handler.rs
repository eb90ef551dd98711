//! The registered handlers: a polymorphic handler interface with one
//! concrete variant per route.  The built-in handlers are pure and
//! never fail; the file handlers cannot do I/O here, so invoking them
//! yields the file action the caller must perform before finishing the
//! cycle.

use vstd::prelude::*;

use crate::bytes_util::{dec_of, usize_to_decimal};
use crate::headers::{lookup, put, Headers};
use crate::lit::{
    content_length_bytes, content_type_bytes, lit_content_length, lit_content_type, lit_echo,
    lit_file, lit_status_ok, lit_text_plain, lit_user_agent, status_ok_bytes, text_plain_bytes,
    echo_bytes, file_bytes, user_agent_bytes,
};
use crate::message::{HTTPResponse, HTTPRequest, HTTPVersion, ReqModel, RespModel};
use vstd::slice::slice_to_vec;

verus! {

/// One registered handler.
#[derive(Clone, Copy, PartialEq, Eq, Structural, Debug)]
pub enum Handler {
    /// `GET /`: an empty success.
    Root,
    /// `GET /echo/{echo}`: echoes the path parameter as text.
    Echo,
    /// `GET /user-agent`: echoes the User-Agent header value.
    UserAgent,
    /// `GET /files/{file}`: serves a stored file, 404 when absent.
    FileRead,
    /// `POST /files/{file}`: stores the request body as a file.
    FileWrite,
}

/// What invoking a handler asks of the caller.
pub enum Invocation {
    /// The handler computed its response itself.
    Done(HTTPResponse),
    /// The named file's contents are needed to finish the cycle.
    NeedsRead(Vec<u8>),
    /// The named file must be created (or truncated) and filled with
    /// the given contents.
    NeedsWrite(Vec<u8>, Option<Vec<u8>>),
}

/// A handler-returned failure; fatal to its connection.  None of the
/// handlers of this crate ever produces one.
#[derive(Clone, Copy, PartialEq, Eq, Structural, Debug)]
pub struct HandlerError;

/// The `file` path parameter, or empty when the pattern bound none.
pub open spec fn file_param(params: Seq<(Seq<u8>, Seq<u8>)>) -> Seq<u8> {
    match lookup(params, lit_file()) {
        Some(v) => v,
        None => Seq::<u8>::empty(),
    }
}

/// The root handler's response: a bare success.
pub open spec fn root_response() -> RespModel {
    RespModel {
        version: HTTPVersion::HTTP1_1,
        state: lit_status_ok(),
        headers: Seq::<(Seq<u8>, Seq<u8>)>::empty(),
        body: None,
    }
}

/// The echo handler's response: the `echo` path parameter as
/// `text/plain` with its exact length.
pub open spec fn echo_response(req: ReqModel) -> RespModel {
    let content = match lookup(req.params, lit_echo()) {
        Some(v) => v,
        None => Seq::<u8>::empty(),
    };
    RespModel {
        version: HTTPVersion::HTTP1_1,
        state: lit_status_ok(),
        headers: put(
            put(Seq::<(Seq<u8>, Seq<u8>)>::empty(), lit_content_type(), lit_text_plain()),
            lit_content_length(),
            dec_of(content.len()),
        ),
        body: Some(content),
    }
}

/// The user-agent handler's response: the User-Agent header value (or
/// empty) as `text/plain` with its exact length.
pub open spec fn user_agent_response(req: ReqModel) -> RespModel {
    let agent = match lookup(req.headers, lit_user_agent()) {
        Some(v) => v,
        None => Seq::<u8>::empty(),
    };
    RespModel {
        version: HTTPVersion::HTTP1_1,
        state: lit_status_ok(),
        headers: put(
            put(Seq::<(Seq<u8>, Seq<u8>)>::empty(), lit_content_type(), lit_text_plain()),
            lit_content_length(),
            dec_of(agent.len()),
        ),
        body: Some(agent),
    }
}

/// What each of the pure handlers returns.
pub open spec fn pure_response(h: Handler, req: ReqModel) -> RespModel {
    match h {
        Handler::Root => root_response(),
        Handler::Echo => echo_response(req),
        Handler::UserAgent => user_agent_response(req),
        _ => arbitrary(),
    }
}

impl Handler {
    /// Runs the handler on a parameter-complete request.  None of the
    /// registered handlers fails, so the error arm is never taken.
    pub fn invoke(&self, req: &HTTPRequest) -> (r: Result<Invocation, HandlerError>)
        requires
            req.wf(),
        ensures
            r is Ok,
            match r {
                Ok(inv) => match *self {
                    Handler::Root | Handler::Echo | Handler::UserAgent => inv matches
                        Invocation::Done(resp) && resp@ == pure_response(*self, req@)
                        && resp.wf(),
                    Handler::FileRead => inv matches Invocation::NeedsRead(name) && name@
                        == file_param(req@.params),
                    Handler::FileWrite => inv matches Invocation::NeedsWrite(name, contents)
                        && name@ == file_param(req@.params) && (match contents {
                        Some(c) => Some(c@),
                        None => None,
                    }) == req@.body,
                },
                Err(_) => false,
            },
    {
        match self {
            Handler::Root => {
                let resp = HTTPResponse::empty_with_state(status_ok_bytes());
                Ok(Invocation::Done(resp))
            },
            Handler::Echo => {
                let key = echo_bytes();
                let content: Vec<u8> = match req.params.get(key.as_slice()) {
                    Some(v) => slice_to_vec(v.as_slice()),
                    None => Vec::new(),
                };
                proof {
                    if lookup(req.params@, lit_echo()) is None {
                        assert(content@ =~= Seq::<u8>::empty());
                    }
                }
                let mut hs = Headers::new();
                hs.insert(content_type_bytes(), text_plain_bytes());
                hs.insert(content_length_bytes(), usize_to_decimal(content.len()));
                let resp = HTTPResponse {
                    version: HTTPVersion::HTTP1_1,
                    state: status_ok_bytes(),
                    headers: hs,
                    body: Some(content),
                };
                Ok(Invocation::Done(resp))
            },
            Handler::UserAgent => {
                let key = user_agent_bytes();
                let agent: Vec<u8> = match req.headers.get(key.as_slice()) {
                    Some(v) => slice_to_vec(v.as_slice()),
                    None => Vec::new(),
                };
                proof {
                    if lookup(req.headers@, lit_user_agent()) is None {
                        assert(agent@ =~= Seq::<u8>::empty());
                    }
                }
                let mut hs = Headers::new();
                hs.insert(content_type_bytes(), text_plain_bytes());
                hs.insert(content_length_bytes(), usize_to_decimal(agent.len()));
                let resp = HTTPResponse {
                    version: HTTPVersion::HTTP1_1,
                    state: status_ok_bytes(),
                    headers: hs,
                    body: Some(agent),
                };
                Ok(Invocation::Done(resp))
            },
            Handler::FileRead => {
                let key = file_bytes();
                let name: Vec<u8> = match req.params.get(key.as_slice()) {
                    Some(v) => slice_to_vec(v.as_slice()),
                    None => Vec::new(),
                };
                proof {
                    if lookup(req.params@, lit_file()) is None {
                        assert(name@ =~= Seq::<u8>::empty());
                    }
                }
                Ok(Invocation::NeedsRead(name))
            },
            Handler::FileWrite => {
                let key = file_bytes();
                let name: Vec<u8> = match req.params.get(key.as_slice()) {
                    Some(v) => slice_to_vec(v.as_slice()),
                    None => Vec::new(),
                };
                proof {
                    if lookup(req.params@, lit_file()) is None {
                        assert(name@ =~= Seq::<u8>::empty());
                    }
                }
                let contents: Option<Vec<u8>> = match &req.body {
                    Some(b) => Some(slice_to_vec(b.as_slice())),
                    None => None,
                };
                Ok(Invocation::NeedsWrite(name, contents))
            },
        }
    }
}

} // verus!
