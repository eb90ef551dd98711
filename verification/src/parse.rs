//! The request parser: interprets a buffered byte message as a textual
//! HTTP request with CRLF line separators.  The start line must split
//! on single spaces into exactly a recognized method, a path and a
//! recognized version; header lines split on the first `": "`; a line
//! that does not split (the empty line included) ends the header
//! section, and everything after it is the body, verbatim.

use vstd::prelude::*;

use crate::bytes_util::{
    bytes_eq, find_byte, find_byte_from, find_pair, find_pair_from, lemma_find_byte,
    lemma_find_pair,
};
use crate::headers::{put, Headers};
use crate::lit::{
    get_bytes, http10_bytes, http11_bytes, http2_bytes, http3_bytes, lit_get, lit_http10,
    lit_http11, lit_http2, lit_http3, lit_post, post_bytes,
};
use crate::message::{HTTPMethod, HTTPRequest, HTTPVersion, ReqModel};
use vstd::slice::{slice_subrange, slice_to_vec};

verus! {

/// Which method a start-line token names.
pub open spec fn method_of(t: Seq<u8>) -> Option<HTTPMethod> {
    if t == lit_get() {
        Some(HTTPMethod::Get)
    } else if t == lit_post() {
        Some(HTTPMethod::Post)
    } else {
        None
    }
}

/// Which version a start-line token names.
pub open spec fn version_of(t: Seq<u8>) -> Option<HTTPVersion> {
    if t == lit_http10() {
        Some(HTTPVersion::HTTP1_0)
    } else if t == lit_http11() {
        Some(HTTPVersion::HTTP1_1)
    } else if t == lit_http2() {
        Some(HTTPVersion::HTTP2)
    } else if t == lit_http3() {
        Some(HTTPVersion::HTTP3)
    } else {
        None
    }
}

/// The start line split on single spaces into exactly three tokens:
/// method, path, version.  Anything else is a parse failure.
pub open spec fn parse_start(line: Seq<u8>) -> Option<(HTTPMethod, Seq<u8>, HTTPVersion)> {
    match find_byte(line, 32, 0) {
        None => None,
        Some(i) => match find_byte(line, 32, i + 1) {
            None => None,
            Some(j) => if find_byte(line, 32, j + 1) is Some {
                None
            } else {
                match (method_of(line.subrange(0, i as int)), version_of(
                    line.subrange(j as int + 1, line.len() as int),
                )) {
                    (Some(m), Some(v)) => Some((m, line.subrange(i as int + 1, j as int), v)),
                    _ => None,
                }
            },
        },
    }
}

/// The header section from position `from` on, accumulated into `acc`
/// with the last write winning, together with the body: everything
/// after the terminating line, if non-empty.
pub open spec fn parse_headers_from(
    s: Seq<u8>,
    from: nat,
    acc: Seq<(Seq<u8>, Seq<u8>)>,
) -> (Seq<(Seq<u8>, Seq<u8>)>, Option<Seq<u8>>)
    decreases s.len() - from,
    when from <= s.len()
{
    let e = match find_pair(s, 13, 10, from) {
        Some(i) => i,
        None => s.len(),
    };
    let line = s.subrange(from as int, e as int);
    match find_pair(line, 58, 32, 0) {
        Some(c) => {
            let acc2 = put(acc, line.subrange(0, c as int), line.subrange(
                c as int + 2,
                line.len() as int,
            ));
            if e == s.len() {
                (acc2, None)
            } else {
                proof {
                    lemma_find_pair(s, 13, 10, from);
                }
                parse_headers_from(s, e + 2, acc2)
            }
        },
        None => {
            if e == s.len() {
                (acc, None)
            } else {
                let rest = s.subrange(e as int + 2, s.len() as int);
                (acc, if rest.len() > 0 {
                    Some(rest)
                } else {
                    None
                })
            }
        },
    }
}

/// What parsing the whole buffered message yields, if anything.
pub open spec fn spec_parse_request(s: Seq<u8>) -> Option<ReqModel> {
    let e0 = match find_pair(s, 13, 10, 0) {
        Some(i) => i,
        None => s.len(),
    };
    match parse_start(s.subrange(0, e0 as int)) {
        None => None,
        Some((m, p, v)) => {
            let hb = if e0 == s.len() {
                (Seq::<(Seq<u8>, Seq<u8>)>::empty(), None)
            } else {
                parse_headers_from(s, e0 + 2, Seq::<(Seq<u8>, Seq<u8>)>::empty())
            };
            Some(
                ReqModel {
                    method: m,
                    version: v,
                    path: p,
                    headers: hb.0,
                    body: hb.1,
                    params: Seq::<(Seq<u8>, Seq<u8>)>::empty(),
                },
            )
        },
    }
}

/// A request that could not be parsed; fatal to its connection.
#[derive(Clone, Copy, PartialEq, Eq, Structural, Debug)]
pub struct ParseError;

fn parse_method(t: &[u8]) -> (r: Option<HTTPMethod>)
    ensures
        r == method_of(t@),
{
    let g = get_bytes();
    if bytes_eq(t, g.as_slice()) {
        Some(HTTPMethod::Get)
    } else {
        let p = post_bytes();
        if bytes_eq(t, p.as_slice()) {
            Some(HTTPMethod::Post)
        } else {
            None
        }
    }
}

fn parse_version(t: &[u8]) -> (r: Option<HTTPVersion>)
    ensures
        r == version_of(t@),
{
    let v10 = http10_bytes();
    if bytes_eq(t, v10.as_slice()) {
        return Some(HTTPVersion::HTTP1_0);
    }
    let v11 = http11_bytes();
    if bytes_eq(t, v11.as_slice()) {
        return Some(HTTPVersion::HTTP1_1);
    }
    let v2 = http2_bytes();
    if bytes_eq(t, v2.as_slice()) {
        return Some(HTTPVersion::HTTP2);
    }
    let v3 = http3_bytes();
    if bytes_eq(t, v3.as_slice()) {
        return Some(HTTPVersion::HTTP3);
    }
    None
}

impl HTTPRequest {
    /// Parses one buffered message; fails exactly when the start line
    /// is malformed, leaving the rest of the input untouched.
    pub fn parse(input: &[u8]) -> (r: Result<HTTPRequest, ParseError>)
        ensures
            match r {
                Ok(req) => spec_parse_request(input@) == Some(req@) && req.wf(),
                Err(_) => spec_parse_request(input@) is None,
            },
    {
        let n: usize = input.len();
        let e0: usize = match find_pair_from(input, 13, 10, 0) {
            Some(i) => i,
            None => n,
        };
        proof {
            lemma_find_pair(input@, 13, 10, 0);
        }
        let line = slice_subrange(input, 0, e0);
        // Start line: exactly three space-separated tokens.
        let i: usize = match find_byte_from(line, 32, 0) {
            Some(i) => i,
            None => {
                return Err(ParseError);
            },
        };
        proof {
            lemma_find_byte(line@, 32, 0);
        }
        let j: usize = match find_byte_from(line, 32, i + 1) {
            Some(j) => j,
            None => {
                return Err(ParseError);
            },
        };
        proof {
            lemma_find_byte(line@, 32, (i + 1) as nat);
        }
        if find_byte_from(line, 32, j + 1).is_some() {
            return Err(ParseError);
        }
        let method = match parse_method(slice_subrange(line, 0, i)) {
            Some(m) => m,
            None => {
                return Err(ParseError);
            },
        };
        let version = match parse_version(slice_subrange(line, j + 1, line.len())) {
            Some(v) => v,
            None => {
                return Err(ParseError);
            },
        };
        let path = slice_to_vec(slice_subrange(line, i + 1, j));
        // Header lines, then the body.
        let mut headers = Headers::new();
        let mut body: Option<Vec<u8>> = None;
        let ghost hstart: nat = (e0 + 2) as nat;
        if e0 < n {
            let mut from: usize = e0 + 2;
            loop
                invariant_except_break
                    from <= n,
                    n == input@.len(),
                    headers.wf(),
                    parse_headers_from(input@, hstart, Seq::<(Seq<u8>, Seq<u8>)>::empty())
                        == parse_headers_from(input@, from as nat, headers@),
                    body is None,
                ensures
                    headers.wf(),
                    parse_headers_from(input@, hstart, Seq::<(Seq<u8>, Seq<u8>)>::empty()) == (
                    headers@,
                    match body {
                        Some(b) => Some(b@),
                        None => None,
                    },
                    ),
                decreases n - from,
            {
                let e: usize = match find_pair_from(input, 13, 10, from) {
                    Some(i) => i,
                    None => n,
                };
                proof {
                    lemma_find_pair(input@, 13, 10, from as nat);
                }
                let hline = slice_subrange(input, from, e);
                match find_pair_from(hline, 58, 32, 0) {
                    Some(c) => {
                        proof {
                            lemma_find_pair(hline@, 58, 32, 0);
                        }
                        let ghost acc0 = headers@;
                        let name = slice_to_vec(slice_subrange(hline, 0, c));
                        let value = slice_to_vec(slice_subrange(hline, c + 2, hline.len()));
                        headers.insert(name, value);
                        if e == n {
                            proof {
                                assert(parse_headers_from(input@, from as nat, acc0) == (
                                headers@,
                                None::<Seq<u8>>,
                                ));
                            }
                            break ;
                        }
                        proof {
                            assert(parse_headers_from(input@, from as nat, acc0)
                                == parse_headers_from(input@, (e + 2) as nat, headers@));
                        }
                        from = e + 2;
                    },
                    None => {
                        if e < n {
                            let rest = slice_subrange(input, e + 2, n);
                            if rest.len() > 0 {
                                body = Some(slice_to_vec(rest));
                                proof {
                                    assert(parse_headers_from(input@, from as nat, headers@) == (
                                    headers@,
                                    Some(rest@),
                                    ));
                                }
                            } else {
                                proof {
                                    assert(parse_headers_from(input@, from as nat, headers@) == (
                                    headers@,
                                    None::<Seq<u8>>,
                                    ));
                                }
                            }
                        } else {
                            proof {
                                assert(parse_headers_from(input@, from as nat, headers@) == (
                                headers@,
                                None::<Seq<u8>>,
                                ));
                            }
                        }
                        break ;
                    },
                }
            }
        }
        let req = HTTPRequest { method, version, path, headers, body, params: Headers::new() };
        proof {
            assert(spec_parse_request(input@) == Some(req@));
        }
        Ok(req)
    }
}

} // verus!
