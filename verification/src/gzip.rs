//! gzip content-coding of response bodies, delegated to `flate2`.

use vstd::prelude::*;

verus! {

/// The gzip encoding of `s` at flate2's default compression level.
/// flate2 writes a fixed stream header (zero modification time and an
/// operating-system byte of 255, chosen by the crate for reproducible
/// streams), so the result is a function of the input bytes alone.
pub uninterp spec fn gzip_of(s: Seq<u8>) -> Seq<u8>;

/// Relies on flate2's `write::GzEncoder` at `Compression::default()`,
/// driven by `Write::write_all` and `finish`: writing into a `Vec<u8>`
/// sink cannot fail, and the stream produced depends on the input
/// bytes alone.
#[verifier::external_body]
pub(crate) fn gzip_compress(data: &[u8]) -> (r: Vec<u8>)
    ensures
        r@ == gzip_of(data@),
{
    let mut enc = flate2::write::GzEncoder::new(Vec::new(), flate2::Compression::default());
    std::io::Write::write_all(&mut enc, data).unwrap();
    enc.finish().unwrap()
}

} // verus!
