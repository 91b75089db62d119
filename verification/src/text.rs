//! Text in GFF data: what the standard library and the `encoding` crate are
//! taken to do when bytes are read as text.

use crate::error::{Error, Result};
use vstd::prelude::*;
use vstd::string::StringSliceAdditionalSpecFns;
use vstd::utf8::valid_utf8;

verus! {

/// The error of `core::str::from_utf8`.
#[verifier::external_type_specification]
#[verifier::external_body]
pub struct ExUtf8Error(core::str::Utf8Error);

/// The error of `String::from_utf8`.
#[verifier::external_type_specification]
#[verifier::external_body]
pub struct ExFromUtf8Error(std::string::FromUtf8Error);

/// `core::str::from_utf8` succeeds on the byte sequences that are valid
/// UTF-8 and on no others, and the string slice that it gives has the bytes
/// that it was given.
pub assume_specification[ core::str::from_utf8 ](v: &[u8]) -> (r: core::result::Result<
    &str,
    core::str::Utf8Error,
>)
    ensures
        r is Ok <==> valid_utf8(v@),
        r matches Ok(s) ==> s.spec_bytes() == v@,
;

/// `String::from_utf8` succeeds on the byte sequences that are valid UTF-8
/// and on no others, and the string that it gives has the bytes that it was
/// given.
pub assume_specification[ std::string::String::from_utf8 ](v: std::vec::Vec<u8>) -> (r:
    core::result::Result<std::string::String, std::string::FromUtf8Error>)
    ensures
        r is Ok <==> valid_utf8(v@),
        r matches Ok(s) ==> s@ == vstd::utf8::decode_utf8(v@),
;

/// What to do with bytes that are no text in the encoding chosen.
#[derive(Debug, Clone, Copy, PartialEq, Eq)]
pub enum DecoderTrap {
    /// Give up: the text cannot be read.
    Strict,
    /// Put the replacement character U+FFFD in their place.
    Replace,
    /// Leave them out.
    Ignore,
}

/// The name of the encoding that is used where none is chosen.
pub fn default_encoding() -> (name: &'static str)
    ensures
        name@ == "utf-8"@,
{
    "utf-8"
}

/// What the `encoding` crate makes of `bytes` in the encoding that the label
/// `encoding` names: nothing where the label names none, else the text, or
/// the words in which the crate says why there is none.
pub uninterp spec fn decoded(encoding: Seq<char>, trap: DecoderTrap, bytes: Seq<u8>) -> Option<
    core::result::Result<Seq<char>, Seq<char>>,
>;

/// Looks the encoding up with `encoding::label::encoding_from_whatwg_label`
/// and reads `bytes` with its `Encoding::decode`. The result is taken to
/// depend on the label, the trap and the bytes alone. Of what it is, one
/// thing is claimed: under the label `utf-8` and the strict trap, bytes
/// that are UTF-8 are read as the text that they are in UTF-8. The decoder
/// of the crate for that label checks the bytes and hands them on as they
/// are.
#[verifier::external_body]
pub(crate) fn decode(encoding: &str, trap: DecoderTrap, bytes: &[u8]) -> (r: Option<
    core::result::Result<String, String>,
>)
    ensures
        match r {
            None => decoded(encoding@, trap, bytes@) is None,
            Some(Ok(text)) => decoded(encoding@, trap, bytes@) == Some(
                Ok::<Seq<char>, Seq<char>>(text@),
            ),
            Some(Err(why)) => decoded(encoding@, trap, bytes@) == Some(
                Err::<Seq<char>, Seq<char>>(why@),
            ),
        },
        match r {
            Some(Ok(text)) => is_plain_utf8(encoding@, trap, bytes@) ==> text@
                == vstd::utf8::decode_utf8(bytes@),
            _ => !is_plain_utf8(encoding@, trap, bytes@),
        },
{
    let trap = match trap {
        DecoderTrap::Strict => encoding::DecoderTrap::Strict,
        DecoderTrap::Replace => encoding::DecoderTrap::Replace,
        DecoderTrap::Ignore => encoding::DecoderTrap::Ignore,
    };
    match encoding::label::encoding_from_whatwg_label(encoding) {
        Some(codec) => Some(codec.decode(bytes, trap).map_err(|why| why.into_owned())),
        None => None,
    }
}

/// Whether `bytes` are UTF-8 and are read as such: the label is `utf-8`,
/// and bytes that are no text make the text unreadable.
pub open spec fn is_plain_utf8(encoding: Seq<char>, trap: DecoderTrap, bytes: Seq<u8>) -> bool {
    encoding == "utf-8"@ && trap is Strict && vstd::utf8::valid_utf8(bytes)
}

/// The text that `bytes` are in the encoding named, or the words that say
/// why they are none. Bytes that are UTF-8 and are read as such are the
/// text that they are in UTF-8.
pub open spec fn text_of(encoding: Seq<char>, trap: DecoderTrap, bytes: Seq<u8>)
    -> core::result::Result<Seq<char>, Seq<char>> {
    if is_plain_utf8(encoding, trap, bytes) {
        Ok(vstd::utf8::decode_utf8(bytes))
    } else {
        match decoded(encoding, trap, bytes) {
            Some(r) => r,
            None => Err("unknown encoding"@),
        }
    }
}

/// A text that is written in UTF-8 is read as it was, under the label
/// `utf-8` and the strict trap.
pub proof fn lemma_text_round_trip(text: Seq<char>)
    ensures
        text_of("utf-8"@, DecoderTrap::Strict, vstd::utf8::encode_utf8(text)) == Ok::<
            Seq<char>,
            Seq<char>,
        >(text),
{
    vstd::utf8::encode_utf8_valid_utf8(text);
    vstd::utf8::encode_utf8_decode_utf8(text);
}

/// Reads `bytes` as text in the encoding that the label `encoding` names.
pub fn decode_text(encoding: &str, trap: DecoderTrap, bytes: &[u8]) -> (r: Result<String>)
    ensures
        match text_of(encoding@, trap, bytes@) {
            Ok(text) => r matches Ok(s) && s@ == text,
            Err(why) => r matches Err(Error::Encoding(e)) && e@ == why,
        },
{
    decoded_text(decode(encoding, trap, bytes))
}

/// What the result of a decoder is handed on as: its text, or the error of
/// this library that holds its words. A decoder that was not found gives the
/// words `unknown encoding`.
pub fn decoded_text(found: Option<core::result::Result<String, String>>) -> (r: Result<String>)
    ensures
        match found {
            Some(Ok(text)) => r == Ok::<String, Error>(text),
            Some(Err(why)) => r == Err::<String, Error>(Error::Encoding(why)),
            None => r matches Err(Error::Encoding(e)) && e@ == "unknown encoding"@,
        },
{
    match found {
        Some(Ok(text)) => Ok(text),
        Some(Err(why)) => Err(Error::Encoding(why)),
        None => Err(Error::Encoding("unknown encoding".to_owned())),
    }
}

} // verus!
