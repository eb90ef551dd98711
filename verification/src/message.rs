//! The message model: a parsed request, a constructible response, and
//! the response's wire serialization, stated byte for byte.

use vstd::prelude::*;

use crate::bytes_util::push_all;
use crate::headers::Headers;
use crate::lit::{
    colon_space_bytes, crlf_bytes, http10_bytes, http11_bytes, http2_bytes, http3_bytes,
    lit_colon_space, lit_crlf, lit_http10, lit_http11, lit_http2, lit_http3,
};

verus! {

#[derive(Clone, Copy, PartialEq, Eq, Structural, Debug, Hash)]
pub enum HTTPMethod {
    Get,
    Post,
}

#[derive(Clone, Copy, PartialEq, Eq, Structural, Debug)]
pub enum HTTPVersion {
    HTTP1_0,
    HTTP1_1,
    HTTP2,
    HTTP3,
}

/// The wire token of a version.
pub open spec fn version_token(v: HTTPVersion) -> Seq<u8> {
    match v {
        HTTPVersion::HTTP1_0 => lit_http10(),
        HTTPVersion::HTTP1_1 => lit_http11(),
        HTTPVersion::HTTP2 => lit_http2(),
        HTTPVersion::HTTP3 => lit_http3(),
    }
}

impl HTTPVersion {
    /// The version's wire token, as bytes.
    pub fn to_vec(&self) -> (r: Vec<u8>)
        ensures
            r@ == version_token(*self),
    {
        match self {
            HTTPVersion::HTTP1_0 => http10_bytes(),
            HTTPVersion::HTTP1_1 => http11_bytes(),
            HTTPVersion::HTTP2 => http2_bytes(),
            HTTPVersion::HTTP3 => http3_bytes(),
        }
    }
}

/// The mathematical value of a parsed request.
#[verifier::ext_equal]
pub ghost struct ReqModel {
    pub method: HTTPMethod,
    pub version: HTTPVersion,
    pub path: Seq<u8>,
    pub headers: Seq<(Seq<u8>, Seq<u8>)>,
    pub body: Option<Seq<u8>>,
    pub params: Seq<(Seq<u8>, Seq<u8>)>,
}

/// The mathematical value of a response.
#[verifier::ext_equal]
pub ghost struct RespModel {
    pub version: HTTPVersion,
    pub state: Seq<u8>,
    pub headers: Seq<(Seq<u8>, Seq<u8>)>,
    pub body: Option<Seq<u8>>,
}

pub struct HTTPRequest {
    pub method: HTTPMethod,
    pub version: HTTPVersion,
    pub path: Vec<u8>,
    pub headers: Headers,
    pub body: Option<Vec<u8>>,
    pub params: Headers,
}

impl View for HTTPRequest {
    type V = ReqModel;

    open spec fn view(&self) -> ReqModel {
        ReqModel {
            method: self.method,
            version: self.version,
            path: self.path@,
            headers: self.headers@,
            body: match self.body {
                Some(b) => Some(b@),
                None => None,
            },
            params: self.params@,
        }
    }
}

impl HTTPRequest {
    pub open spec fn wf(&self) -> bool {
        self.headers.wf() && self.params.wf()
    }
}

impl Default for HTTPRequest {
    /// A `GET /` request of HTTP/1.1 with nothing else set.
    fn default() -> (r: HTTPRequest)
        ensures
            r@ == (ReqModel {
                method: HTTPMethod::Get,
                version: HTTPVersion::HTTP1_1,
                path: seq![47u8],
                headers: Seq::<(Seq<u8>, Seq<u8>)>::empty(),
                body: None,
                params: Seq::<(Seq<u8>, Seq<u8>)>::empty(),
            }),
            r.wf(),
    {
        let r = HTTPRequest {
            method: HTTPMethod::Get,
            version: HTTPVersion::HTTP1_1,
            path: vec![47u8],
            headers: Headers::new(),
            body: None,
            params: Headers::new(),
        };
        proof {
            assert(r.path@ =~= seq![47u8]);
        }
        r
    }
}

pub struct HTTPResponse {
    pub version: HTTPVersion,
    pub state: Vec<u8>,
    pub headers: Headers,
    pub body: Option<Vec<u8>>,
}

impl View for HTTPResponse {
    type V = RespModel;

    open spec fn view(&self) -> RespModel {
        RespModel {
            version: self.version,
            state: self.state@,
            headers: self.headers@,
            body: match self.body {
                Some(b) => Some(b@),
                None => None,
            },
        }
    }
}

/// The serialized header section: each entry as `name: value` followed
/// by CRLF, in iteration order.
pub open spec fn header_block(hs: Seq<(Seq<u8>, Seq<u8>)>) -> Seq<u8>
    decreases hs.len(),
{
    if hs.len() == 0 {
        Seq::<u8>::empty()
    } else {
        hs[0].0 + lit_colon_space() + hs[0].1 + lit_crlf() + header_block(hs.drop_first())
    }
}

/// The full wire form: status line, header section, blank line, body.
pub open spec fn serialized(m: RespModel) -> Seq<u8> {
    version_token(m.version) + seq![32u8] + m.state + lit_crlf() + header_block(m.headers)
        + lit_crlf() + (match m.body {
        Some(b) => b,
        None => Seq::<u8>::empty(),
    })
}

impl HTTPResponse {
    pub open spec fn wf(&self) -> bool {
        self.headers.wf()
    }

    /// A response with the given status line text and nothing else.
    pub fn empty_with_state(state: Vec<u8>) -> (r: HTTPResponse)
        ensures
            r@ == (RespModel {
                version: HTTPVersion::HTTP1_1,
                state: state@,
                headers: Seq::<(Seq<u8>, Seq<u8>)>::empty(),
                body: None,
            }),
            r.wf(),
    {
        HTTPResponse {
            version: HTTPVersion::HTTP1_1,
            state,
            headers: Headers::new(),
            body: None,
        }
    }

    /// Serializes the response, exactly as `serialized` states.
    pub fn to_vec(&self) -> (r: Vec<u8>)
        ensures
            r@ == serialized(self@),
    {
        let mut buf: Vec<u8> = self.version.to_vec();
        buf.push(32);
        push_all(&mut buf, self.state.as_slice());
        let crlf = crlf_bytes();
        push_all(&mut buf, crlf.as_slice());
        let ghost head = version_token(self.version) + seq![32u8] + self.state@ + lit_crlf();
        proof {
            assert(buf@ =~= head);
        }
        let colon_space = colon_space_bytes();
        let mut i: usize = 0;
        proof {
            assert(self.headers@.skip(0) =~= self.headers@);
        }
        while i < self.headers.len()
            invariant
                i <= self.headers@.len(),
                buf@ + header_block(self.headers@.skip(i as int)) == head + header_block(
                    self.headers@,
                ),
                crlf@ == lit_crlf(),
                colon_space@ == lit_colon_space(),
            decreases self.headers@.len() - i,
        {
            let ghost hs = self.headers@.skip(i as int);
            proof {
                assert(hs[0] == self.headers@[i as int]);
                assert(hs.drop_first() =~= self.headers@.skip(i as int + 1));
            }
            push_all(&mut buf, self.headers.key_at(i).as_slice());
            push_all(&mut buf, colon_space.as_slice());
            push_all(&mut buf, self.headers.value_at(i).as_slice());
            push_all(&mut buf, crlf.as_slice());
            proof {
                assert(header_block(hs) == hs[0].0 + lit_colon_space() + hs[0].1 + lit_crlf()
                    + header_block(hs.drop_first()));
                assert(buf@ + header_block(self.headers@.skip(i as int + 1)) =~= head
                    + header_block(self.headers@));
            }
            i += 1;
        }
        proof {
            assert(self.headers@.skip(self.headers@.len() as int) =~= Seq::<
                (Seq<u8>, Seq<u8>),
            >::empty());
        }
        push_all(&mut buf, crlf.as_slice());
        match &self.body {
            Some(b) => {
                push_all(&mut buf, b.as_slice());
            },
            None => {},
        }
        proof {
            assert(buf@ =~= serialized(self@));
        }
        buf
    }
}

} // verus!
