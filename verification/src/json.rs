//! The calls into serde_json that the reader and writer make.
//!
//! Each call is a trusted wrapper: its contract names what serde_json
//! computes, and adds only the short facts of JSON that the laws of this
//! crate need.

use crate::text::ascii_chars;
use vstd::utf8::encode_utf8;
use vstd::prelude::*;

verus! {

#[verifier::external_type_specification]
#[verifier::external_body]
pub struct ExJsonError(serde_json::Error);

/// The byte `"`.
pub const QUOTE: u8 = 34;

/// The byte `\`.
pub const BACKSLASH: u8 = 92;

/// JSON whitespace: space, tab, line feed and carriage return.
pub open spec fn is_ws(b: u8) -> bool {
    b == 32 || b == 9 || b == 10 || b == 13
}

/// A byte that stands for itself inside a JSON string: printable ASCII other
/// than `"` and `\`.
pub open spec fn is_plain_byte(b: u8) -> bool {
    32 <= b < 127 && b != QUOTE && b != BACKSLASH
}

/// A JSON string literal whose content is plain bytes only.
pub open spec fn is_plain_string_literal(raw: Seq<u8>) -> bool {
    &&& raw.len() >= 2
    &&& raw[0] == QUOTE
    &&& raw.last() == QUOTE
    &&& forall|i: int| 1 <= i < raw.len() - 1 ==> is_plain_byte(#[trigger] raw[i])
}

/// The error serde_json refuses `bytes` with as one JSON document, or `None`
/// where it accepts them.
pub uninterp spec fn json_refusal(bytes: Seq<u8>) -> Option<serde_json::Error>;

/// Whether serde_json accepts `bytes` as one JSON document.
pub open spec fn json_accepts(bytes: Seq<u8>) -> bool {
    json_refusal(bytes) is None
}

/// What serde_json decodes a JSON string literal to, if anything.
pub uninterp spec fn json_string(raw: Seq<u8>) -> Option<Seq<char>>;

/// What serde_json reads from a JSON document as a `u32`: the number, or the
/// error it refuses the document with.
pub uninterp spec fn json_u32(bytes: Seq<u8>) -> Result<u32, serde_json::Error>;

/// The lowercase hexadecimal digit for `d`, below 16.
pub open spec fn hex_digit(d: u8) -> u8 {
    if d < 10 {
        (48 + d) as u8
    } else {
        (87 + d) as u8
    }
}

/// How serde_json writes one byte of a string's UTF-8 between the quotes:
/// `"` and `\` behind a backslash; backspace, tab, line feed, form feed and
/// carriage return as their short escapes; other bytes below 0x20 as
/// `\u00` and two lowercase hexadecimal digits; every other byte as itself.
pub open spec fn escaped_byte(b: u8) -> Seq<u8> {
    if b == QUOTE {
        seq![BACKSLASH, QUOTE]
    } else if b == BACKSLASH {
        seq![BACKSLASH, BACKSLASH]
    } else if b == 8 {
        seq![BACKSLASH, 98u8]
    } else if b == 9 {
        seq![BACKSLASH, 116u8]
    } else if b == 10 {
        seq![BACKSLASH, 110u8]
    } else if b == 12 {
        seq![BACKSLASH, 102u8]
    } else if b == 13 {
        seq![BACKSLASH, 114u8]
    } else if b < 32 {
        seq![BACKSLASH, 117u8, 48u8, 48u8, hex_digit(b / 16), hex_digit(b % 16)]
    } else {
        seq![b]
    }
}

/// The escaped form of a string's UTF-8 bytes, byte by byte.
pub open spec fn escaped_bytes(bytes: Seq<u8>) -> Seq<u8>
    decreases bytes.len(),
{
    if bytes.len() == 0 {
        Seq::empty()
    } else {
        escaped_bytes(bytes.drop_last()) + escaped_byte(bytes.last())
    }
}

/// The bytes serde_json writes for a string: its escaped UTF-8 between
/// quotes.
pub open spec fn json_quoted(text: Seq<char>) -> Seq<u8> {
    seq![QUOTE] + escaped_bytes(encode_utf8(text)) + seq![QUOTE]
}

/// Calls `serde_json::from_slice::<serde_json::Value>`: the result is `Ok`
/// exactly when serde_json accepts the bytes as one JSON value surrounded by
/// whitespace, and an error is the one serde_json refuses them with.
#[verifier::external_body]
pub(crate) fn check_json(bytes: &[u8]) -> (r: Result<(), serde_json::Error>)
    ensures
        r is Ok <==> json_accepts(bytes@),
        r matches Err(e) ==> json_refusal(bytes@) == Some(e),
{
    match serde_json::from_slice::<serde_json::Value>(bytes) {
        Ok(_) => Ok(()),
        Err(error) => Err(error),
    }
}

/// Calls `serde_json::from_slice::<String>` on a string literal: the result is
/// what serde_json decodes, and a literal of plain bytes decodes to those
/// bytes' characters.
#[verifier::external_body]
pub(crate) fn decode_string(raw: &[u8]) -> (r: Result<String, serde_json::Error>)
    ensures
        r is Ok <==> json_string(raw@) is Some,
        r matches Ok(s) ==> json_string(raw@) == Some(s@),
        r matches Ok(s) ==> (is_plain_string_literal(raw@) ==> s@ == ascii_chars(
            raw@.subrange(1, raw@.len() - 1),
        )),
        r is Ok || !is_plain_string_literal(raw@),
{
    serde_json::from_slice::<String>(raw)
}

/// Calls `serde_json::from_slice::<u32>`: the result is what serde_json
/// reads.
#[verifier::external_body]
pub(crate) fn decode_u32(bytes: &[u8]) -> (r: Result<u32, serde_json::Error>)
    ensures
        r == json_u32(bytes@),
{
    serde_json::from_slice::<u32>(bytes)
}

/// Calls `serde_json::to_vec` on a string: the result is the string's UTF-8
/// between quotes, escaped as serde_json escapes it. Writing a string into a `Vec` does not
/// fail; the empty vector stands in for that case only to fit the type.
#[verifier::external_body]
pub(crate) fn encode_string(text: &str) -> (r: Vec<u8>)
    ensures
        r@ == json_quoted(text@),
{
    match serde_json::to_vec(text) {
        Ok(bytes) => bytes,
        Err(_) => Vec::new(),
    }
}

/// The text serde_json's `Display` writes for an error.
pub uninterp spec fn json_error_text(error: serde_json::Error) -> Seq<char>;

/// Calls `serde_json::Error`'s `to_string`: the result is the text its
/// `Display` writes.
#[verifier::external_body]
pub(crate) fn error_text(error: &serde_json::Error) -> (r: String)
    ensures
        r@ == json_error_text(*error),
{
    error.to_string()
}

} // verus!
