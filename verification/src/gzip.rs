//! Best-effort gzip: a buffer that inflates to something is replaced by
//! what it inflates to, any other buffer passes as it is.

use crate::http::bytes_view;
use std::io::Read;
use vstd::prelude::*;
use vstd::slice::slice_to_vec;

verus! {

/// What reading the gzip stream in `data` to its end gives with flate2's
/// `GzDecoder`: the inflated bytes, or `None` where the read ends in an
/// error.
pub uninterp spec fn gzip_inflated(data: Seq<u8>) -> Option<Seq<u8>>;

/// Reads `data` to the end through `flate2::read::GzDecoder`. Gives what was
/// read where the read succeeds and `None` where it fails; the contract only
/// names that outcome.
#[verifier::external_body]
fn inflate(data: &[u8]) -> (r: Option<Vec<u8>>)
    ensures
        bytes_view(r) == gzip_inflated(data@),
{
    let mut out = Vec::new();
    match flate2::read::GzDecoder::new(data).read_to_end(&mut out) {
        Ok(_) => Some(out),
        Err(_) => None,
    }
}

/// The bytes to parse, given a buffer and what it inflates to: the inflated
/// bytes where there are any, else the buffer itself.
pub open spec fn payload_of(raw: Seq<u8>, inflated: Option<Seq<u8>>) -> Seq<u8> {
    match inflated {
        Some(bytes) => if bytes.len() > 0 {
            bytes
        } else {
            raw
        },
        None => raw,
    }
}

/// The bytes to parse for a buffer that may or may not be gzip.
pub open spec fn decompressed(raw: Seq<u8>) -> Seq<u8> {
    payload_of(raw, gzip_inflated(raw))
}

/// Picks the bytes to parse: `inflated` where inflating succeeded and gave
/// at least one byte, else a copy of `raw`.
pub fn choose_payload(raw: &[u8], inflated: Option<Vec<u8>>) -> (r: Vec<u8>)
    ensures
        r@ == payload_of(raw@, bytes_view(inflated)),
{
    match inflated {
        Some(bytes) => {
            if bytes.len() > 0 {
                bytes
            } else {
                slice_to_vec(raw)
            }
        },
        None => slice_to_vec(raw),
    }
}

/// Inflates `buffer` if it is gzip and gives the buffer back unchanged if it
/// is not, or if it inflates to nothing. Never fails.
pub fn decompress(buffer: &[u8]) -> (r: Vec<u8>)
    ensures
        r@ == decompressed(buffer@),
        gzip_inflated(buffer@) is None ==> r@ == buffer@,
{
    let inflated = inflate(buffer);
    choose_payload(buffer, inflated)
}

} // verus!
