//! The protocol's fixed byte strings, each once as a specification
//! constant and once as an executable constructor proved against it.

use vstd::prelude::*;

verus! {

/// The bytes of `"\r\n"`: the CRLF line terminator.
pub open spec fn lit_crlf() -> Seq<u8> {
    seq![13u8, 10u8]
}

/// The bytes of `"\r\n"`, as a vector.
pub fn crlf_bytes() -> (r: Vec<u8>)
    ensures
        r@ == lit_crlf(),
{
    let r: Vec<u8> = vec![13u8, 10u8];
    proof {
        assert(r@ =~= lit_crlf());
    }
    r
}

/// The bytes of `": "`: the header name/value separator.
pub open spec fn lit_colon_space() -> Seq<u8> {
    seq![58u8, 32u8]
}

/// The bytes of `": "`, as a vector.
pub fn colon_space_bytes() -> (r: Vec<u8>)
    ensures
        r@ == lit_colon_space(),
{
    let r: Vec<u8> = vec![58u8, 32u8];
    proof {
        assert(r@ =~= lit_colon_space());
    }
    r
}

/// The bytes of `"GET"`: the GET method token.
pub open spec fn lit_get() -> Seq<u8> {
    seq![71u8, 69u8, 84u8]
}

/// The bytes of `"GET"`, as a vector.
pub fn get_bytes() -> (r: Vec<u8>)
    ensures
        r@ == lit_get(),
{
    let r: Vec<u8> = vec![71u8, 69u8, 84u8];
    proof {
        assert(r@ =~= lit_get());
    }
    r
}

/// The bytes of `"POST"`: the POST method token.
pub open spec fn lit_post() -> Seq<u8> {
    seq![80u8, 79u8, 83u8, 84u8]
}

/// The bytes of `"POST"`, as a vector.
pub fn post_bytes() -> (r: Vec<u8>)
    ensures
        r@ == lit_post(),
{
    let r: Vec<u8> = vec![80u8, 79u8, 83u8, 84u8];
    proof {
        assert(r@ =~= lit_post());
    }
    r
}

/// The bytes of `"HTTP/1.0"`: the HTTP/1.0 version token.
pub open spec fn lit_http10() -> Seq<u8> {
    seq![72u8, 84u8, 84u8, 80u8, 47u8, 49u8, 46u8, 48u8]
}

/// The bytes of `"HTTP/1.0"`, as a vector.
pub fn http10_bytes() -> (r: Vec<u8>)
    ensures
        r@ == lit_http10(),
{
    let r: Vec<u8> = vec![72u8, 84u8, 84u8, 80u8, 47u8, 49u8, 46u8, 48u8];
    proof {
        assert(r@ =~= lit_http10());
    }
    r
}

/// The bytes of `"HTTP/1.1"`: the HTTP/1.1 version token.
pub open spec fn lit_http11() -> Seq<u8> {
    seq![72u8, 84u8, 84u8, 80u8, 47u8, 49u8, 46u8, 49u8]
}

/// The bytes of `"HTTP/1.1"`, as a vector.
pub fn http11_bytes() -> (r: Vec<u8>)
    ensures
        r@ == lit_http11(),
{
    let r: Vec<u8> = vec![72u8, 84u8, 84u8, 80u8, 47u8, 49u8, 46u8, 49u8];
    proof {
        assert(r@ =~= lit_http11());
    }
    r
}

/// The bytes of `"HTTP/2"`: the HTTP/2 version token.
pub open spec fn lit_http2() -> Seq<u8> {
    seq![72u8, 84u8, 84u8, 80u8, 47u8, 50u8]
}

/// The bytes of `"HTTP/2"`, as a vector.
pub fn http2_bytes() -> (r: Vec<u8>)
    ensures
        r@ == lit_http2(),
{
    let r: Vec<u8> = vec![72u8, 84u8, 84u8, 80u8, 47u8, 50u8];
    proof {
        assert(r@ =~= lit_http2());
    }
    r
}

/// The bytes of `"HTTP/3"`: the HTTP/3 version token.
pub open spec fn lit_http3() -> Seq<u8> {
    seq![72u8, 84u8, 84u8, 80u8, 47u8, 51u8]
}

/// The bytes of `"HTTP/3"`, as a vector.
pub fn http3_bytes() -> (r: Vec<u8>)
    ensures
        r@ == lit_http3(),
{
    let r: Vec<u8> = vec![72u8, 84u8, 84u8, 80u8, 47u8, 51u8];
    proof {
        assert(r@ =~= lit_http3());
    }
    r
}

/// The bytes of `"gzip"`: the gzip content-coding token.
pub open spec fn lit_gzip() -> Seq<u8> {
    seq![103u8, 122u8, 105u8, 112u8]
}

/// The bytes of `"gzip"`, as a vector.
pub fn gzip_bytes() -> (r: Vec<u8>)
    ensures
        r@ == lit_gzip(),
{
    let r: Vec<u8> = vec![103u8, 122u8, 105u8, 112u8];
    proof {
        assert(r@ =~= lit_gzip());
    }
    r
}

/// The bytes of `"close"`: the close connection directive.
pub open spec fn lit_close() -> Seq<u8> {
    seq![99u8, 108u8, 111u8, 115u8, 101u8]
}

/// The bytes of `"close"`, as a vector.
pub fn close_bytes() -> (r: Vec<u8>)
    ensures
        r@ == lit_close(),
{
    let r: Vec<u8> = vec![99u8, 108u8, 111u8, 115u8, 101u8];
    proof {
        assert(r@ =~= lit_close());
    }
    r
}

/// The bytes of `"Connection"`: the Connection header name.
pub open spec fn lit_connection() -> Seq<u8> {
    seq![67u8, 111u8, 110u8, 110u8, 101u8, 99u8, 116u8, 105u8, 111u8, 110u8]
}

/// The bytes of `"Connection"`, as a vector.
pub fn connection_bytes() -> (r: Vec<u8>)
    ensures
        r@ == lit_connection(),
{
    let r: Vec<u8> = vec![67u8, 111u8, 110u8, 110u8, 101u8, 99u8, 116u8, 105u8, 111u8, 110u8];
    proof {
        assert(r@ =~= lit_connection());
    }
    r
}

/// The bytes of `"Accept-Encoding"`: the Accept-Encoding header name.
pub open spec fn lit_accept_encoding() -> Seq<u8> {
    seq![65u8, 99u8, 99u8, 101u8, 112u8, 116u8, 45u8, 69u8, 110u8, 99u8, 111u8, 100u8, 105u8, 110u8, 103u8]
}

/// The bytes of `"Accept-Encoding"`, as a vector.
pub fn accept_encoding_bytes() -> (r: Vec<u8>)
    ensures
        r@ == lit_accept_encoding(),
{
    let r: Vec<u8> = vec![65u8, 99u8, 99u8, 101u8, 112u8, 116u8, 45u8, 69u8, 110u8, 99u8, 111u8, 100u8, 105u8, 110u8, 103u8];
    proof {
        assert(r@ =~= lit_accept_encoding());
    }
    r
}

/// The bytes of `"Content-Encoding"`: the Content-Encoding header name.
pub open spec fn lit_content_encoding() -> Seq<u8> {
    seq![67u8, 111u8, 110u8, 116u8, 101u8, 110u8, 116u8, 45u8, 69u8, 110u8, 99u8, 111u8, 100u8, 105u8, 110u8, 103u8]
}

/// The bytes of `"Content-Encoding"`, as a vector.
pub fn content_encoding_bytes() -> (r: Vec<u8>)
    ensures
        r@ == lit_content_encoding(),
{
    let r: Vec<u8> = vec![67u8, 111u8, 110u8, 116u8, 101u8, 110u8, 116u8, 45u8, 69u8, 110u8, 99u8, 111u8, 100u8, 105u8, 110u8, 103u8];
    proof {
        assert(r@ =~= lit_content_encoding());
    }
    r
}

/// The bytes of `"Content-Length"`: the Content-Length header name.
pub open spec fn lit_content_length() -> Seq<u8> {
    seq![67u8, 111u8, 110u8, 116u8, 101u8, 110u8, 116u8, 45u8, 76u8, 101u8, 110u8, 103u8, 116u8, 104u8]
}

/// The bytes of `"Content-Length"`, as a vector.
pub fn content_length_bytes() -> (r: Vec<u8>)
    ensures
        r@ == lit_content_length(),
{
    let r: Vec<u8> = vec![67u8, 111u8, 110u8, 116u8, 101u8, 110u8, 116u8, 45u8, 76u8, 101u8, 110u8, 103u8, 116u8, 104u8];
    proof {
        assert(r@ =~= lit_content_length());
    }
    r
}

/// The bytes of `"Content-Type"`: the Content-Type header name.
pub open spec fn lit_content_type() -> Seq<u8> {
    seq![67u8, 111u8, 110u8, 116u8, 101u8, 110u8, 116u8, 45u8, 84u8, 121u8, 112u8, 101u8]
}

/// The bytes of `"Content-Type"`, as a vector.
pub fn content_type_bytes() -> (r: Vec<u8>)
    ensures
        r@ == lit_content_type(),
{
    let r: Vec<u8> = vec![67u8, 111u8, 110u8, 116u8, 101u8, 110u8, 116u8, 45u8, 84u8, 121u8, 112u8, 101u8];
    proof {
        assert(r@ =~= lit_content_type());
    }
    r
}

/// The bytes of `"text/plain"`: the text/plain media type.
pub open spec fn lit_text_plain() -> Seq<u8> {
    seq![116u8, 101u8, 120u8, 116u8, 47u8, 112u8, 108u8, 97u8, 105u8, 110u8]
}

/// The bytes of `"text/plain"`, as a vector.
pub fn text_plain_bytes() -> (r: Vec<u8>)
    ensures
        r@ == lit_text_plain(),
{
    let r: Vec<u8> = vec![116u8, 101u8, 120u8, 116u8, 47u8, 112u8, 108u8, 97u8, 105u8, 110u8];
    proof {
        assert(r@ =~= lit_text_plain());
    }
    r
}

/// The bytes of `"application/octet-stream"`: the octet-stream media type.
pub open spec fn lit_octet_stream() -> Seq<u8> {
    seq![97u8, 112u8, 112u8, 108u8, 105u8, 99u8, 97u8, 116u8, 105u8, 111u8, 110u8, 47u8, 111u8, 99u8, 116u8, 101u8, 116u8, 45u8, 115u8, 116u8, 114u8, 101u8, 97u8, 109u8]
}

/// The bytes of `"application/octet-stream"`, as a vector.
pub fn octet_stream_bytes() -> (r: Vec<u8>)
    ensures
        r@ == lit_octet_stream(),
{
    let r: Vec<u8> = vec![97u8, 112u8, 112u8, 108u8, 105u8, 99u8, 97u8, 116u8, 105u8, 111u8, 110u8, 47u8, 111u8, 99u8, 116u8, 101u8, 116u8, 45u8, 115u8, 116u8, 114u8, 101u8, 97u8, 109u8];
    proof {
        assert(r@ =~= lit_octet_stream());
    }
    r
}

/// The bytes of `"User-Agent"`: the User-Agent header name.
pub open spec fn lit_user_agent() -> Seq<u8> {
    seq![85u8, 115u8, 101u8, 114u8, 45u8, 65u8, 103u8, 101u8, 110u8, 116u8]
}

/// The bytes of `"User-Agent"`, as a vector.
pub fn user_agent_bytes() -> (r: Vec<u8>)
    ensures
        r@ == lit_user_agent(),
{
    let r: Vec<u8> = vec![85u8, 115u8, 101u8, 114u8, 45u8, 65u8, 103u8, 101u8, 110u8, 116u8];
    proof {
        assert(r@ =~= lit_user_agent());
    }
    r
}

/// The bytes of `"200 OK"`: the 200 status line text.
pub open spec fn lit_status_ok() -> Seq<u8> {
    seq![50u8, 48u8, 48u8, 32u8, 79u8, 75u8]
}

/// The bytes of `"200 OK"`, as a vector.
pub fn status_ok_bytes() -> (r: Vec<u8>)
    ensures
        r@ == lit_status_ok(),
{
    let r: Vec<u8> = vec![50u8, 48u8, 48u8, 32u8, 79u8, 75u8];
    proof {
        assert(r@ =~= lit_status_ok());
    }
    r
}

/// The bytes of `"404 Not Found"`: the 404 status line text.
pub open spec fn lit_status_not_found() -> Seq<u8> {
    seq![52u8, 48u8, 52u8, 32u8, 78u8, 111u8, 116u8, 32u8, 70u8, 111u8, 117u8, 110u8, 100u8]
}

/// The bytes of `"404 Not Found"`, as a vector.
pub fn status_not_found_bytes() -> (r: Vec<u8>)
    ensures
        r@ == lit_status_not_found(),
{
    let r: Vec<u8> = vec![52u8, 48u8, 52u8, 32u8, 78u8, 111u8, 116u8, 32u8, 70u8, 111u8, 117u8, 110u8, 100u8];
    proof {
        assert(r@ =~= lit_status_not_found());
    }
    r
}

/// The bytes of `"201 Created"`: the 201 status line text.
pub open spec fn lit_status_created() -> Seq<u8> {
    seq![50u8, 48u8, 49u8, 32u8, 67u8, 114u8, 101u8, 97u8, 116u8, 101u8, 100u8]
}

/// The bytes of `"201 Created"`, as a vector.
pub fn status_created_bytes() -> (r: Vec<u8>)
    ensures
        r@ == lit_status_created(),
{
    let r: Vec<u8> = vec![50u8, 48u8, 49u8, 32u8, 67u8, 114u8, 101u8, 97u8, 116u8, 101u8, 100u8];
    proof {
        assert(r@ =~= lit_status_created());
    }
    r
}

/// The bytes of `"echo"`: the echo route's parameter name.
pub open spec fn lit_echo() -> Seq<u8> {
    seq![101u8, 99u8, 104u8, 111u8]
}

/// The bytes of `"echo"`, as a vector.
pub fn echo_bytes() -> (r: Vec<u8>)
    ensures
        r@ == lit_echo(),
{
    let r: Vec<u8> = vec![101u8, 99u8, 104u8, 111u8];
    proof {
        assert(r@ =~= lit_echo());
    }
    r
}

/// The bytes of `"file"`: the file routes' parameter name.
pub open spec fn lit_file() -> Seq<u8> {
    seq![102u8, 105u8, 108u8, 101u8]
}

/// The bytes of `"file"`, as a vector.
pub fn file_bytes() -> (r: Vec<u8>)
    ensures
        r@ == lit_file(),
{
    let r: Vec<u8> = vec![102u8, 105u8, 108u8, 101u8];
    proof {
        assert(r@ =~= lit_file());
    }
    r
}

} // verus!
