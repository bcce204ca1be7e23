//! Base58 text, in the Bitcoin alphabet, as the `bs58` crate writes and reads it.

use vstd::prelude::*;

verus! {

/// A character of the Bitcoin base58 alphabet.
pub open spec fn is_base58_char(c: char) -> bool {
    ||| ('1' <= c && c <= '9')
    ||| ('A' <= c && c <= 'Z' && c != 'I' && c != 'O')
    ||| ('a' <= c && c <= 'z' && c != 'l')
}

/// The base58 text of `data`.
pub uninterp spec fn spec_base58_encode(data: Seq<u8>) -> Seq<char>;

/// The bytes that `text` spells in base58, if it is base58 text.
pub uninterp spec fn spec_base58_decode(text: Seq<char>) -> Option<Seq<u8>>;

#[verifier::external_type_specification]
#[verifier::external_body]
pub struct ExBase58DecodeError(bs58::decode::Error);

/// Calls `bs58::encode(data).into_string()`. The text depends on `data`
/// alone, uses only alphabet characters, and decodes back to `data`.
#[verifier::external_body]
pub(crate) fn base58_encode(data: &[u8]) -> (text: String)
    ensures
        text@ == spec_base58_encode(data@),
        forall|i: int| 0 <= i < text@.len() ==> is_base58_char(#[trigger] text@[i]),
        spec_base58_decode(text@) == Some(data@),
{
    bs58::encode(data).into_string()
}

/// Calls `bs58::decode(text).into_vec()`: the decoded bytes, or the crate's
/// error when `text` is not base58 text.
#[verifier::external_body]
pub(crate) fn base58_decode(text: &str) -> (r: Result<Vec<u8>, bs58::decode::Error>)
    ensures
        match r {
            Ok(v) => spec_base58_decode(text@) == Some(v@),
            Err(_) => spec_base58_decode(text@) is None,
        },
{
    bs58::decode(text).into_vec()
}

/// The `Debug` text of a `bs58` decoding error (nothing is promised of it).
#[verifier::external_body]
pub(crate) fn base58_error_text(error: &bs58::decode::Error) -> (text: String) {
    format!("{error:?}")
}

} // verus!
