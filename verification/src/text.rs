use vstd::prelude::*;
use vstd::utf8::{decode_utf8, valid_utf8};

verus! {

/// The text that `String::from_utf8_lossy` makes of `bytes`: the decoded
/// characters, with U+FFFD standing in for each malformed stretch.
pub uninterp spec fn lossy_text(bytes: Seq<u8>) -> Seq<char>;

/// Strict decoding, by `String::from_utf8`.
///
/// Trusted: the call yields a string exactly when the bytes are well-formed
/// UTF-8, and the string then holds the characters they encode.
#[verifier::external_body]
pub(crate) fn strict_text(bytes: Vec<u8>) -> (r: Option<String>)
    ensures
        match r {
            Some(s) => valid_utf8(bytes@) && s@ == decode_utf8(bytes@),
            None => !valid_utf8(bytes@),
        },
{
    String::from_utf8(bytes).ok()
}

/// Lenient decoding, by `String::from_utf8_lossy`.
///
/// Trusted: the call never fails and its result depends on the bytes
/// alone; on well-formed UTF-8 it is the text that the bytes encode.
#[verifier::external_body]
pub(crate) fn lenient_text(bytes: &[u8]) -> (r: String)
    ensures
        r@ == lossy_text(bytes@),
        valid_utf8(bytes@) ==> r@ == decode_utf8(bytes@),
{
    String::from_utf8_lossy(bytes).into_owned()
}

} // verus!
