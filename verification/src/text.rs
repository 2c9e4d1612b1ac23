//! Decoding frame text bodies under the four declared text encodings:
//! ISO-8859-1, UTF-16 with a byte-order mark, UTF-16BE, and UTF-8.

use vstd::prelude::*;
use vstd::utf8::{decode_utf8, valid_utf8};
use crate::TagError;

verus! {

/// The characters of `b` read as ISO-8859-1: one character per byte, with the
/// byte's value as its code point.
pub open spec fn latin1_seq(b: Seq<u8>) -> Seq<char> {
    Seq::new(b.len(), |i: int| b[i] as char)
}

/// What encoding_rs's UTF-16BE decoder yields for a byte sequence: the decoded
/// characters, or `None` when the bytes are not well-formed UTF-16BE.
pub uninterp spec fn utf16be_decoded(b: Seq<u8>) -> Option<Seq<char>>;

/// What encoding_rs's UTF-16LE decoder yields for a byte sequence: the decoded
/// characters, or `None` when the bytes are not well-formed UTF-16LE.
pub uninterp spec fn utf16le_decoded(b: Seq<u8>) -> Option<Seq<char>>;

/// Relies on encoding_rs::mem::decode_latin1: every byte's unsigned value is
/// taken as a Unicode code point (U+0000 to U+00FF), so the call always
/// succeeds and yields one character per byte.
#[verifier::external_body]
pub(crate) fn decode_latin1(bytes: &[u8]) -> (r: String)
    ensures
        r@ == latin1_seq(bytes@),
{
    encoding_rs::mem::decode_latin1(bytes).into_owned()
}

/// Relies on encoding_rs's
/// `UTF_16BE.decode_without_bom_handling_and_without_replacement`: the result
/// depends on the bytes alone, and is `None` exactly when they are malformed
/// UTF-16BE.
#[verifier::external_body]
pub(crate) fn decode_utf16be(bytes: &[u8]) -> (r: Option<String>)
    ensures
        utf16be_decoded(bytes@) == match r {
            Some(s) => Some(s@),
            None => None::<Seq<char>>,
        },
{
    match encoding_rs::UTF_16BE.decode_without_bom_handling_and_without_replacement(bytes) {
        Some(cow) => Some(cow.into_owned()),
        None => None,
    }
}

/// Relies on encoding_rs's
/// `UTF_16LE.decode_without_bom_handling_and_without_replacement`: the result
/// depends on the bytes alone, and is `None` exactly when they are malformed
/// UTF-16LE.
#[verifier::external_body]
pub(crate) fn decode_utf16le(bytes: &[u8]) -> (r: Option<String>)
    ensures
        utf16le_decoded(bytes@) == match r {
            Some(s) => Some(s@),
            None => None::<Seq<char>>,
        },
{
    match encoding_rs::UTF_16LE.decode_without_bom_handling_and_without_replacement(bytes) {
        Some(cow) => Some(cow.into_owned()),
        None => None,
    }
}

/// Relies on `String::from_utf8` (std): it succeeds exactly on valid UTF-8
/// input and returns that input decoded.
#[verifier::external_body]
pub(crate) fn decode_utf8_bytes(bytes: &[u8]) -> (r: Option<String>)
    ensures
        match r {
            Some(s) => valid_utf8(bytes@) && s@ == decode_utf8(bytes@),
            None => !valid_utf8(bytes@),
        },
{
    match String::from_utf8(bytes.to_vec()) {
        Ok(s) => Some(s),
        Err(_) => None,
    }
}

/// What decoding `b` under the declared encoding identifier yields.
///
/// Identifier 0 is ISO-8859-1 and always succeeds; 1 is UTF-16 whose leading
/// byte-order mark selects the endianness (a missing mark is a
/// `DecodeError`); 2 is UTF-16BE without a mark; 3 is UTF-8. Any other
/// identifier is an `UnsupportedEncoding`; bytes invalid for their declared
/// encoding are a `DecodeError`.
pub open spec fn decode_text_spec(b: Seq<u8>, encoding: u8) -> Result<Seq<char>, TagError> {
    if encoding == 0 {
        Ok(latin1_seq(b))
    } else if encoding == 1 {
        if b.len() >= 2 && b[0] == 0xfe && b[1] == 0xff {
            match utf16be_decoded(b.skip(2)) {
                Some(s) => Ok(s),
                None => Err(TagError::DecodeError),
            }
        } else if b.len() >= 2 && b[0] == 0xff && b[1] == 0xfe {
            match utf16le_decoded(b.skip(2)) {
                Some(s) => Ok(s),
                None => Err(TagError::DecodeError),
            }
        } else {
            Err(TagError::DecodeError)
        }
    } else if encoding == 2 {
        match utf16be_decoded(b) {
            Some(s) => Ok(s),
            None => Err(TagError::DecodeError),
        }
    } else if encoding == 3 {
        if valid_utf8(b) {
            Ok(decode_utf8(b))
        } else {
            Err(TagError::DecodeError)
        }
    } else {
        Err(TagError::UnsupportedEncoding)
    }
}

} // verus!
