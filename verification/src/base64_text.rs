//! Bytes as base64 text, through the `base64` crate.
use base64::Engine;
use vstd::prelude::*;

verus! {

/// An error of the `base64` crate.
#[verifier::external_type_specification]
#[verifier::external_body]
pub struct ExDecodeError(base64::DecodeError);

/// How `base64::engine::general_purpose::STANDARD` writes bytes.
pub uninterp spec fn base64_of(bytes: Seq<u8>) -> Seq<char>;

/// The bytes that `base64::engine::general_purpose::STANDARD` reads from a text, where it reads it.
pub uninterp spec fn bytes_of_base64(text: Seq<char>) -> Option<Seq<u8>>;

/// What `base64::engine::general_purpose::STANDARD` says of a text that it does not read.
pub uninterp spec fn fault_of_base64(text: Seq<char>) -> Seq<char>;

/// How a `base64::DecodeError` is printed by its `Display`.
pub uninterp spec fn decode_error_text(error: base64::DecodeError) -> Seq<char>;

/// `Engine::encode` of `base64::engine::general_purpose::STANDARD` writes bytes as text, which
/// reads as the same bytes. A slice holds at most `isize::MAX` bytes, so the size of the text does
/// not overflow.
#[verifier::external_body]
pub(crate) fn encode_base64(bytes: &[u8]) -> (text: String)
    ensures
        text@ == base64_of(bytes@),
        bytes_of_base64(text@) == Some(bytes@),
{
    base64::engine::general_purpose::STANDARD.encode(bytes)
}

/// `Engine::decode` of `base64::engine::general_purpose::STANDARD` reads a text, or refuses it with
/// an error.
#[verifier::external_body]
fn read_base64(text: &str) -> (outcome: Result<Vec<u8>, base64::DecodeError>)
    ensures
        outcome is Ok == bytes_of_base64(text@) is Some,
        outcome matches Ok(bytes) ==> bytes@ == bytes_of_base64(text@)->0,
        outcome matches Err(error) ==> decode_error_text(error) == fault_of_base64(text@),
{
    base64::engine::general_purpose::STANDARD.decode(text)
}

/// `base64::DecodeError`'s `Display` prints the error.
#[verifier::external_body]
fn print_decode_error(error: &base64::DecodeError) -> (text: String)
    ensures
        text@ == decode_error_text(*error),
{
    error.to_string()
}

/// Reads bytes from base64 text, or says why it is none.
pub fn decode_base64(text: &str) -> (outcome: Result<Vec<u8>, String>)
    ensures
        outcome is Ok == bytes_of_base64(text@) is Some,
        outcome matches Ok(bytes) ==> bytes@ == bytes_of_base64(text@)->0,
        outcome matches Err(fault) ==> fault@ == fault_of_base64(text@),
{
    match read_base64(text) {
        Ok(bytes) => Ok(bytes),
        Err(error) => Err(print_decode_error(&error)),
    }
}

} // verus!
