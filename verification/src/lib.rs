//! A minimal, verified HTTP/1.1 engine: a byte-level request parser, a
//! path-parameterized router with `{name}` wildcard segments, exact
//! response serialization, and the pure decision logic of one
//! connection's request/response cycle.  Sockets and files stay with
//! the caller; gzip compression is delegated to `flate2` behind a
//! single trusted wrapper.

pub mod bytes_util;
pub mod engine;
pub mod gzip;
pub mod handler;
pub mod headers;
pub mod lit;
pub mod message;
pub mod parse;
pub mod router;
