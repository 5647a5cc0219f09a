//! Block compression, done by `lz4_flex`.
use vstd::prelude::*;

use crate::bytes::le_bytes;

verus! {

/// What `lz4_flex::decompress_size_prepended` makes of a byte string:
/// `None` where it reports an error.
pub uninterp spec fn lz4_decompressed(input: Seq<u8>) -> Option<Seq<u8>>;

#[verifier::external_type_specification]
#[verifier::external_body]
pub struct ExDecompressError(lz4_flex::block::DecompressError);

/// Calls `lz4_flex::compress_prepend_size`. Its source writes the input's
/// length as a little-endian `u32`, then the lz4 block, into a buffer of
/// `get_maximum_output_size(len) + 4` bytes; its documentation pairs it with
/// `decompress_size_prepended`, which gives the input back. Which matches the
/// compressor finds depends on the machine (it hashes words read in native
/// byte order, with a table chosen by pointer width), so the compressed bytes
/// after the length prefix are not stated: only their bound, and that they
/// decompress to the input.
#[verifier::external_body]
pub fn lz4_compress_prepend_size(input: &[u8]) -> (r: Vec<u8>)
    requires
        input@.len() <= u32::MAX,
    ensures
        r@.len() >= 4,
        r@.take(4) == le_bytes(input@.len() as int, 4),
        r@.len() <= 24 + input@.len() * 110 / 100,
        lz4_decompressed(r@) == Some(input@),
{
    lz4_flex::compress_prepend_size(input)
}

/// Calls `lz4_flex::decompress_size_prepended`, which reads the size that
/// `compress_prepend_size` put in front and decompresses the rest; its result
/// is named by `lz4_decompressed`.
#[verifier::external_body]
pub fn lz4_decompress_size_prepended(input: &[u8]) -> (r: Result<Vec<u8>, lz4_flex::block::DecompressError>)
    ensures
        match r {
            Ok(v) => lz4_decompressed(input@) == Some(v@),
            Err(_) => lz4_decompressed(input@) is None,
        },
{
    lz4_flex::decompress_size_prepended(input)
}

} // verus!
