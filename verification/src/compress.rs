//! Compression of text fields with zstd.

use vstd::prelude::*;

verus! {

/// The error type of the compressor's stream functions.
#[verifier::external_type_specification]
#[verifier::external_body]
pub struct ExIoError(std::io::Error);

/// The level at which text fields are compressed.
pub const COMPRESSION_LEVEL: i32 = 20;

/// The zstd frame that compressing `data` at `level` yields, or `None` where
/// the compressor reports an error.
pub uninterp spec fn zstd_encoded(data: Seq<u8>, level: int) -> Option<Seq<u8>>;

/// The data that decompressing `data` yields, or `None` where `data` is not a
/// sequence of well-formed zstd frames.
pub uninterp spec fn zstd_decoded(data: Seq<u8>) -> Option<Seq<u8>>;

/// Calls `zstd::encode_all` on a slice. The contract names the compressed
/// bytes and states that compression is lossless: decompressing them gives
/// `data` back.
#[verifier::external_body]
pub(crate) fn encode_all(data: &[u8], level: i32) -> (r: Result<Vec<u8>, std::io::Error>)
    ensures
        match r {
            Ok(v) => zstd_encoded(data@, level as int) == Some(v@) && zstd_decoded(v@) == Some(
                data@,
            ),
            Err(_) => zstd_encoded(data@, level as int) is None,
        },
{
    zstd::encode_all(data, level)
}

/// Calls `zstd::decode_all` on a slice. The contract names the decompressed
/// bytes; an error is returned exactly where there are none.
#[verifier::external_body]
pub(crate) fn decode_all(data: &[u8]) -> (r: Result<Vec<u8>, std::io::Error>)
    ensures
        match r {
            Ok(v) => zstd_decoded(data@) == Some(v@),
            Err(_) => zstd_decoded(data@) is None,
        },
{
    zstd::decode_all(data)
}

/// Compresses `data` at the level used on the wire.
pub fn compress(data: &[u8]) -> (r: Option<Vec<u8>>)
    ensures
        match r {
            Some(v) => zstd_encoded(data@, COMPRESSION_LEVEL as int) == Some(v@) && zstd_decoded(
                v@,
            ) == Some(data@),
            None => zstd_encoded(data@, COMPRESSION_LEVEL as int) is None,
        },
{
    match encode_all(data, COMPRESSION_LEVEL) {
        Ok(v) => Some(v),
        Err(_) => None,
    }
}

/// Decompresses `data`.
pub fn decompress(data: &[u8]) -> (r: Option<Vec<u8>>)
    ensures
        match r {
            Some(v) => zstd_decoded(data@) == Some(v@),
            None => zstd_decoded(data@) is None,
        },
{
    match decode_all(data) {
        Ok(v) => Some(v),
        Err(_) => None,
    }
}

} // verus!
