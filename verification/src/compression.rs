use crate::compression_code::CompressionCode;
use vstd::prelude::*;

verus! {

/// The zlib stream that compressing the given bytes produces.
pub uninterp spec fn zlib_of(bytes: Seq<u8>) -> Seq<u8>;

/// Relies on miniz_oxide::deflate::compress_to_vec_zlib: at a fixed
/// compression level the produced zlib stream is a function of the input
/// bytes alone.
#[verifier::external_body]
fn zlib_compress(data: Vec<u8>) -> (r: Vec<u8>)
    ensures
        r@ == zlib_of(data@),
{
    miniz_oxide::deflate::compress_to_vec_zlib(&data, 6)
}

/// The payload bytes that applying `code` to `bytes` produces.
pub open spec fn encoded(code: CompressionCode, bytes: Seq<u8>) -> Seq<u8> {
    match code {
        CompressionCode::Uncompressed => bytes,
        CompressionCode::Zlib => zlib_of(bytes),
    }
}

/// Applies the chosen payload encoding to `payload`.
pub fn into_compressed(code: CompressionCode, payload: Vec<u8>) -> (r: Vec<u8>)
    ensures
        r@ == encoded(code, payload@),
{
    match code {
        CompressionCode::Uncompressed => payload,
        CompressionCode::Zlib => zlib_compress(payload),
    }
}

} // verus!
