//! Bytes as UTF-8 text.
use vstd::prelude::*;
use vstd::utf8::{decode_utf8, valid_utf8};

verus! {

/// How `String::from_utf8_lossy` reads bytes: it replaces what is no UTF-8.
pub uninterp spec fn lossy_utf8(bytes: Seq<u8>) -> Seq<char>;

/// Bytes as text, with whatever is no UTF-8 in them replaced.
pub open spec fn readable(bytes: Seq<u8>) -> Seq<char> {
    if valid_utf8(bytes) {
        decode_utf8(bytes)
    } else {
        lossy_utf8(bytes)
    }
}

/// `std::str::from_utf8` reads bytes that are UTF-8 as text, and refuses others.
#[verifier::external_body]
pub(crate) fn utf8_text(bytes: &[u8]) -> (text: Option<String>)
    ensures
        text is Some == valid_utf8(bytes@),
        text matches Some(t) ==> t@ == decode_utf8(bytes@),
{
    std::str::from_utf8(bytes).ok().map(str::to_owned)
}

/// `String::from_utf8_lossy` reads bytes that are UTF-8 as text, and replaces what is no UTF-8.
#[verifier::external_body]
pub(crate) fn lossy_text(bytes: &[u8]) -> (text: String)
    ensures
        text@ == lossy_utf8(bytes@),
        valid_utf8(bytes@) ==> text@ == decode_utf8(bytes@),
{
    String::from_utf8_lossy(bytes).into_owned()
}

} // verus!
