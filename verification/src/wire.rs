//! What may travel as an HTTP header name, header value or status code.
//!
//! The predicates say what the `http` crate accepts; the functions below them
//! ask the crate itself. Their contracts are trusted, not proved: each one
//! restates the check that the crate's source performs.

use vstd::prelude::*;

verus! {

/// The longest header name that `http` accepts, in bytes.
pub const MAX_HEADER_NAME_LEN: usize = 65535;

/// A character that may stand in a header name: an ASCII letter or digit, or
/// one of ``! # $ % & ' * + - . ^ _ ` | ~``.
pub open spec fn is_token_char(c: char) -> bool {
    ||| 'a' <= c <= 'z'
    ||| 'A' <= c <= 'Z'
    ||| '0' <= c <= '9'
    ||| c == '!'
    ||| c == '#'
    ||| c == '$'
    ||| c == '%'
    ||| c == '&'
    ||| c == '\''
    ||| c == '*'
    ||| c == '+'
    ||| c == '-'
    ||| c == '.'
    ||| c == '^'
    ||| c == '_'
    ||| c == '`'
    ||| c == '|'
    ||| c == '~'
}

/// A text that can be encoded as a header name: not empty, at most
/// [`MAX_HEADER_NAME_LEN`] long, and made of token characters only.
pub open spec fn is_header_name(name: Seq<char>) -> bool {
    &&& 1 <= name.len() <= MAX_HEADER_NAME_LEN
    &&& forall|i: int| 0 <= i < name.len() ==> is_token_char(#[trigger] name[i])
}

/// A byte that may stand in a header value: a horizontal tab, or anything from
/// the space upwards except DEL.
pub open spec fn is_value_byte(b: u8) -> bool {
    (b >= 32 && b != 127) || b == 9
}

/// Bytes that can be encoded as a header value.
pub open spec fn is_header_value(value: Seq<u8>) -> bool {
    forall|i: int| 0 <= i < value.len() ==> is_value_byte(#[trigger] value[i])
}

/// A byte of visible ASCII text: a horizontal tab, or the space up to `~`.
pub open spec fn is_text_byte(b: u8) -> bool {
    (32 <= b < 127) || b == 9
}

/// Bytes that are a header value readable as text.
pub open spec fn is_header_text(value: Seq<u8>) -> bool {
    forall|i: int| 0 <= i < value.len() ==> is_text_byte(#[trigger] value[i])
}

/// The characters that ASCII bytes stand for.
pub open spec fn text_of(value: Seq<u8>) -> Seq<char> {
    Seq::new(value.len(), |i: int| value[i] as char)
}

/// A number that can be a response's status code.
pub open spec fn is_status_code(code: u16) -> bool {
    100 <= code <= 999
}

/// Asks `http::header::HeaderName::from_bytes` whether it accepts the name.
///
/// Trusted: the crate refuses the empty name and any name longer than
/// [`MAX_HEADER_NAME_LEN`] bytes, and maps every byte through a table that is
/// zero exactly off the token characters, refusing a name with such a byte.
/// Token characters are ASCII, so an accepted text has one byte per character.
#[verifier::external_body]
pub(crate) fn header_name_encodes(name: &str) -> (ok: bool)
    ensures
        ok == is_header_name(name@),
{
    http::header::HeaderName::from_bytes(name.as_bytes()).is_ok()
}

/// Asks `http::header::HeaderValue::from_bytes` whether it accepts the bytes.
///
/// Trusted: the crate refuses exactly the values that hold a byte below 32
/// other than the tab, or the byte 127; it sets no limit on the length.
#[verifier::external_body]
pub(crate) fn header_value_encodes(value: &[u8]) -> (ok: bool)
    ensures
        ok == is_header_value(value@),
{
    http::header::HeaderValue::from_bytes(value).is_ok()
}

/// Reads a header value as text with `http::header::HeaderValue::to_str`.
///
/// Trusted: the crate yields the text exactly when every byte is a tab or lies
/// between 32 and 126, and the text then has these bytes as its characters.
/// Bytes that are no header value at all hold a byte outside that range.
#[verifier::external_body]
pub(crate) fn header_value_text(value: &[u8]) -> (text: Option<String>)
    ensures
        text is Some <==> is_header_text(value@),
        text matches Some(t) ==> t@ == text_of(value@),
{
    match http::header::HeaderValue::from_bytes(value) {
        Ok(encoded) => match encoded.to_str() {
            Ok(text) => Some(text.to_owned()),
            Err(_) => None,
        },
        Err(_) => None,
    }
}

/// Asks `http::StatusCode::from_u16` whether it accepts the number.
///
/// Trusted: the crate accepts exactly the numbers from 100 to 999.
#[verifier::external_body]
pub(crate) fn status_code_encodes(code: u16) -> (ok: bool)
    ensures
        ok == is_status_code(code),
{
    http::StatusCode::from_u16(code).is_ok()
}

} // verus!
