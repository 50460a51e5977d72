//! The bytes an asset's data holds under each compression: MessagePack as
//! it is, or MessagePack compressed with Zstandard (`zstd`).

use vstd::prelude::*;
use crate::asset::Compression;

verus! {

/// The most bytes Zstandard-compressed asset data may decode to.
pub const DECODED_LIMIT: usize = 15360usize;

/// The Zstandard compression level asset data is written with.
pub const ENCODING_LEVEL: i32 = 20i32;

/// What `zstd::bulk::decompress` makes of `data` when the result may be at
/// most `limit` bytes long: the decoded bytes, or nothing where it fails.
pub uninterp spec fn zstd_decoded(data: Seq<u8>, limit: usize) -> Option<Seq<u8>>;

/// What `zstd::stream::encode_all` makes of `data` at compression `level`:
/// the encoded bytes, or nothing where it fails.
pub uninterp spec fn zstd_encoded(data: Seq<u8>, level: i32) -> Option<Seq<u8>>;

/// `zstd::bulk::decompress(data, limit)`: the decoded bytes, which the
/// decoder writes into a buffer of `limit` bytes and so are at most that
/// many; `None` where the data is not Zstandard or decodes to more.
#[verifier::external_body]
pub(crate) fn zstd_decode_limited(data: &[u8], limit: usize) -> (r: Option<Vec<u8>>)
    ensures
        match r {
            Some(v) => zstd_decoded(data@, limit) == Some(v@) && v@.len() <= limit,
            None => zstd_decoded(data@, limit) is None,
        },
{
    match zstd::bulk::decompress(data, limit) {
        Ok(v) => Some(v),
        Err(_) => None,
    }
}

/// `zstd::stream::encode_all(data, level)`: the encoded bytes, or `None`
/// where the encoder fails.
#[verifier::external_body]
pub(crate) fn zstd_encode(data: &[u8], level: i32) -> (r: Option<Vec<u8>>)
    ensures
        match r {
            Some(v) => zstd_encoded(data@, level) == Some(v@),
            None => zstd_encoded(data@, level) is None,
        },
{
    match zstd::stream::encode_all(data, level) {
        Ok(v) => Some(v),
        Err(_) => None,
    }
}

/// The MessagePack bytes that asset data stored with `compression` holds:
/// the data itself, or what it decodes to as Zstandard within
/// `DECODED_LIMIT` bytes; `None` where it does not decode.
pub fn asset_payload(compression: Compression, data: &[u8]) -> (r: Option<Vec<u8>>)
    ensures
        compression is MessagePack ==> (r matches Some(v) && v@ == data@),
        compression is ZstdMessagePack ==> match r {
            Some(v) => zstd_decoded(data@, DECODED_LIMIT) == Some(v@) && v@.len() <= DECODED_LIMIT,
            None => zstd_decoded(data@, DECODED_LIMIT) is None,
        },
{
    match compression {
        Compression::MessagePack => Some(vstd::slice::slice_to_vec(data)),
        Compression::ZstdMessagePack => zstd_decode_limited(data, DECODED_LIMIT),
    }
}

/// The asset data that stores the MessagePack bytes `payload` with
/// `compression`: the bytes themselves, or their Zstandard encoding at
/// `ENCODING_LEVEL`; `None` where the encoder fails.
pub fn compressed_payload(compression: Compression, payload: &[u8]) -> (r: Option<Vec<u8>>)
    ensures
        compression is MessagePack ==> (r matches Some(v) && v@ == payload@),
        compression is ZstdMessagePack ==> match r {
            Some(v) => zstd_encoded(payload@, ENCODING_LEVEL) == Some(v@),
            None => zstd_encoded(payload@, ENCODING_LEVEL) is None,
        },
{
    match compression {
        Compression::MessagePack => Some(vstd::slice::slice_to_vec(payload)),
        Compression::ZstdMessagePack => zstd_encode(payload, ENCODING_LEVEL),
    }
}

} // verus!
