//! UTF-8 decoding of on-disk text, through `std::str` and `String`.

use vstd::prelude::*;
use vstd::utf8::{decode_utf8, valid_utf8};

verus! {

/// What `String::from_utf8_lossy` makes of `bytes`: the decoded text, with
/// each invalid sequence replaced by U+FFFD.
pub uninterp spec fn utf8_lossy(bytes: Seq<u8>) -> Seq<char>;

/// Calls `std::str::from_utf8` and copies the text out.
///
/// Claims what the standard library documents: the call succeeds exactly on
/// valid UTF-8 and then yields the decoded characters; otherwise the error's
/// `valid_up_to` is the length of the longest prefix that is valid UTF-8.
#[verifier::external_body]
pub(crate) fn utf8_to_string(bytes: &[u8]) -> (r: Result<String, usize>)
    ensures
        r is Ok <==> valid_utf8(bytes@),
        r matches Ok(s) ==> s@ == decode_utf8(bytes@),
        r matches Err(k) ==> {
            &&& k <= bytes@.len()
            &&& valid_utf8(bytes@.subrange(0, k as int))
            &&& forall|j: int| k < j <= bytes@.len() ==> !valid_utf8(#[trigger] bytes@.subrange(0, j))
        },
{
    match std::str::from_utf8(bytes) {
        Ok(s) => Ok(s.to_owned()),
        Err(e) => Err(e.valid_up_to()),
    }
}

/// Calls `String::from_utf8_lossy` and copies the text out.
///
/// Claims that the result is `utf8_lossy(bytes)`, which on valid UTF-8 is the
/// decoded text unchanged (the standard library returns the input as is);
/// how invalid sequences are replaced is not stated.
#[verifier::external_body]
pub(crate) fn utf8_to_string_lossy(bytes: &[u8]) -> (r: String)
    ensures
        r@ == utf8_lossy(bytes@),
        valid_utf8(bytes@) ==> r@ == decode_utf8(bytes@),
{
    String::from_utf8_lossy(bytes).into_owned()
}

} // verus!
