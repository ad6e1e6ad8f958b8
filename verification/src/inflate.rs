//! The way to the DEFLATE decompressor, which is not part of this crate.

use vstd::prelude::*;
use miniz_oxide::inflate::DecompressError;

verus! {

/// The error that `miniz_oxide::inflate::decompress_to_vec` reports.
/// Nothing is read from it.
#[verifier::external_type_specification]
#[verifier::external_body]
pub struct ExDecompressError(DecompressError);

/// What `miniz_oxide::inflate::decompress_to_vec` makes of a raw DEFLATE
/// stream: the inflated bytes, or `None` where it reports a failure, as it
/// does for a malformed or truncated stream. Nothing is claimed here of
/// what the bytes are.
pub uninterp spec fn inflated(compressed: Seq<u8>) -> Option<Seq<u8>>;

/// Wraps `miniz_oxide::inflate::decompress_to_vec`, which inflates a raw
/// DEFLATE stream into a vector that it grows as needed. The contract
/// claims only that the outcome depends on the input bytes alone: success
/// with the inflated bytes, or failure.
#[verifier::external_body]
pub(crate) fn decompress(compressed: &[u8]) -> (res: Result<Vec<u8>, DecompressError>)
    ensures
        match res {
            Ok(bytes) => inflated(compressed@) == Some(bytes@),
            Err(_) => inflated(compressed@) is None,
        },
{
    miniz_oxide::inflate::decompress_to_vec(compressed)
}

/// Inflates a raw DEFLATE stream; `None` says that the decompressor
/// refused it.
pub fn inflate_bytes(compressed: &[u8]) -> (res: Option<Vec<u8>>)
    ensures
        match res {
            Some(bytes) => inflated(compressed@) == Some(bytes@),
            None => inflated(compressed@) is None,
        },
{
    match decompress(compressed) {
        Ok(bytes) => Some(bytes),
        Err(_) => None,
    }
}

} // verus!
