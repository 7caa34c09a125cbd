//! The compression of archives, which the `zstd` crate does.

use vstd::prelude::*;

verus! {

/// The error type of the standard library's input and output, in which
/// `zstd` reports what it cannot read or write.
#[verifier::external_type_specification]
#[verifier::external_body]
pub struct ExIoError(std::io::Error);

/// What `zstd::stream::decode_all` makes of these bytes: the data it gives
/// back, or nothing where it reports an error. No more is known of it here
/// than that it depends on the bytes alone.
pub uninterp spec fn zstd_decoded(frames: Seq<u8>) -> Option<Seq<u8>>;

/// What `zstd::stream::encode_all` makes of these bytes at a compression
/// level: the frame it gives back, or nothing where it reports an error. No
/// more is known of it here than that it depends on the bytes and the level
/// alone.
pub uninterp spec fn zstd_encoded(data: Seq<u8>, level: i32) -> Option<Seq<u8>>;

/// Calls `zstd::stream::decode_all` on the bytes. The bytes that come back,
/// or that none come back, depend on the given bytes alone.
#[verifier::external_body]
pub(crate) fn zstd_decode(frames: &[u8]) -> (r: Result<Vec<u8>, std::io::Error>)
    ensures
        match r {
            Ok(data) => zstd_decoded(frames@) == Some(data@),
            Err(_) => zstd_decoded(frames@) is None,
        },
{
    zstd::stream::decode_all(frames)
}

/// Calls `zstd::stream::encode_all` on the bytes. The bytes that come back,
/// or that none come back, depend on the given bytes and the level alone.
#[verifier::external_body]
pub(crate) fn zstd_encode(data: &[u8], level: i32) -> (r: Result<Vec<u8>, std::io::Error>)
    ensures
        match r {
            Ok(frames) => zstd_encoded(data@, level) == Some(frames@),
            Err(_) => zstd_encoded(data@, level) is None,
        },
{
    zstd::stream::encode_all(data, level)
}

/// The data that zstd reads out of the bytes, if it reads any.
pub fn decompress(frames: &[u8]) -> (r: Option<Vec<u8>>)
    ensures
        match r {
            Some(data) => zstd_decoded(frames@) == Some(data@),
            None => zstd_decoded(frames@) is None,
        },
{
    match zstd_decode(frames) {
        Ok(data) => Some(data),
        Err(_) => None,
    }
}

/// The frame that zstd makes of the data at a compression level, if it
/// makes any.
pub fn compress(data: &[u8], level: i32) -> (r: Option<Vec<u8>>)
    ensures
        match r {
            Some(frames) => zstd_encoded(data@, level) == Some(frames@),
            None => zstd_encoded(data@, level) is None,
        },
{
    match zstd_encode(data, level) {
        Ok(frames) => Some(frames),
        Err(_) => None,
    }
}

} // verus!
