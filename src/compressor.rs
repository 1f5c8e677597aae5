//! Single-shot gzip compression.
use vstd::prelude::*;
use vstd::utf8::encode_utf8;

verus! {

/// The gzip member (header, deflate stream at the default level, trailer) that
/// flate2 produces for `b`.
pub uninterp spec fn gzip_of(b: Seq<u8>) -> Seq<u8>;

/// Whether flate2's encoder reports an error while compressing `b`.
pub uninterp spec fn gzip_fails(b: Seq<u8>) -> bool;

/// Relies on flate2's `write::GzEncoder` (`new` at `Compression::default()`,
/// `write_all`, `finish`) over a `Vec<u8>`: whether it fails, and the bytes it
/// writes when it does not, depend on `b` alone (the header is fixed: no
/// mtime, OS byte 255).
#[verifier::external_body]
fn gzip_bytes(b: &[u8]) -> (r: Option<Vec<u8>>)
    ensures
        r matches Some(z) ==> z@ == gzip_of(b@),
        r is None <==> gzip_fails(b@),
{
    let mut encoder = flate2::write::GzEncoder::new(Vec::new(), flate2::Compression::default());
    std::io::Write::write_all(&mut encoder, b).ok()?;
    encoder.finish().ok()
}

/// The gzip form of the UTF-8 bytes of `input`, or `None` where the encoder failed.
pub fn gzip_string(input: &str) -> (r: Option<Vec<u8>>)
    ensures
        r matches Some(z) ==> z@ == gzip_of(encode_utf8(input@)),
        r is None <==> gzip_fails(encode_utf8(input@)),
{
    gzip_bytes(input.as_bytes())
}

} // verus!
