//! The bytes of stream objects: their content, compressed with zlib or not, and the frame
//! of `stream` and `endstream` after the stream dictionary.
use vstd::prelude::*;

use crate::error::PdfError;
use crate::util::CompressionMethod;

verus! {

/// What `flate2`'s zlib encoder at the default level makes of some bytes.
pub uninterp spec fn zlib_compress(data: Seq<u8>) -> Seq<u8>;

/// `flate2::write::ZlibEncoder` at the default compression level, over a `Vec`: writes
/// `data` and finishes. The contract names the compressed bytes `zlib_compress(data)` and
/// claims success: the encoder writes into a fresh `Vec`, whose writes do not fail, and one
/// `write_all` followed by `finish` gives the compressor no call that it refuses.
#[verifier::external_body]
fn zlib_encode(data: &[u8]) -> (r: Result<Vec<u8>, std::io::Error>)
    ensures
        r is Ok,
        r matches Ok(v) ==> v@ == zlib_compress(data@),
{
    let mut encoder = flate2::write::ZlibEncoder::new(Vec::new(), flate2::Compression::default());
    std::io::Write::write_all(&mut encoder, data)?;
    encoder.finish()
}

/// The bytes written for a stream's content: the content itself, or its zlib compression.
pub fn stream_bytes(method: CompressionMethod, content: &[u8]) -> (r: Result<Vec<u8>, PdfError>)
    ensures
        method == CompressionMethod::Uncompressed ==> (r matches Ok(v) && v@ == content@),
        method == CompressionMethod::Flate ==> (r matches Ok(v) && v@ == zlib_compress(content@)),
{
    match method {
        CompressionMethod::Uncompressed => Ok(vstd::slice::slice_to_vec(content)),
        CompressionMethod::Flate => match zlib_encode(content) {
            Ok(v) => Ok(v),
            Err(e) => Err(PdfError::from(e)),
        },
    }
}

/// A newline, `stream`, a newline, the stream bytes, then `endstream` and a newline.
pub open spec fn stream_frame(stream: Seq<u8>) -> Seq<u8> {
    seq![10u8, 115u8, 116u8, 114u8, 101u8, 97u8, 109u8, 10u8] + stream
        + seq![101u8, 110u8, 100u8, 115u8, 116u8, 114u8, 101u8, 97u8, 109u8, 10u8]
}

/// The serialised stream: the bytes of its dictionary followed by the framed stream bytes.
pub fn frame_stream(dict_bytes: &[u8], stream: &[u8]) -> (v: Vec<u8>)
    ensures
        v@ == dict_bytes@ + stream_frame(stream@),
{
    let mut v = vstd::slice::slice_to_vec(dict_bytes);
    v.push(10u8);
    v.push(115u8);
    v.push(116u8);
    v.push(114u8);
    v.push(101u8);
    v.push(97u8);
    v.push(109u8);
    v.push(10u8);
    let mut s = vstd::slice::slice_to_vec(stream);
    v.append(&mut s);
    v.push(101u8);
    v.push(110u8);
    v.push(100u8);
    v.push(115u8);
    v.push(116u8);
    v.push(114u8);
    v.push(101u8);
    v.push(97u8);
    v.push(109u8);
    v.push(10u8);
    assert(v@ =~= dict_bytes@ + stream_frame(stream@));
    v
}

} // verus!
