//! The two pieces of Unicode handling that this crate takes from std as they
//! are: lossy decoding of UTF-8 and lower-casing. Their results are named
//! here, not defined; nothing in this file is proved.

use vstd::prelude::*;

verus! {

/// The text that `String::from_utf8_lossy` of std makes of `bytes`: the
/// decoded chars, with U+FFFD in place of each invalid sequence.
pub uninterp spec fn utf8_lossy(bytes: Seq<u8>) -> Seq<char>;

/// The lower-case form that `str::to_lowercase` of std gives for `s`.
pub uninterp spec fn lowercase(s: Seq<char>) -> Seq<char>;

/// Calls `String::from_utf8_lossy` and owns the result. The contract only
/// names what comes back; the call never fails.
#[verifier::external_body]
pub(crate) fn decode_lossy(bytes: &[u8]) -> (r: String)
    ensures
        r@ == utf8_lossy(bytes@),
{
    String::from_utf8_lossy(bytes).into_owned()
}

/// Calls `str::to_lowercase`. The contract only names what comes back.
#[verifier::external_body]
pub(crate) fn lowercase_of(s: &str) -> (r: String)
    ensures
        r@ == lowercase(s@),
{
    s.to_lowercase()
}

} // verus!
