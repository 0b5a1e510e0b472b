//! Reading the numeric fields of vertex directives.
//!
//! The scalar type of a mesh is a parameter: the library moves scalars
//! around and never computes with them. Reading one from text is left to
//! the type's own `FromStr`.

use vstd::prelude::*;
use vstd::utf8::{decode_utf8, encode_utf8, valid_utf8};

verus! {

/// The bytes `bytes` as text, if they are valid UTF-8.
///
/// Calls `core::str::from_utf8`. The contract is not proved: it states that
/// the call succeeds exactly on valid UTF-8 and that the text it gives is
/// encoded by the very bytes it was given.
#[verifier::external_body]
pub(crate) fn utf8_text(bytes: &[u8]) -> (r: Option<&str>)
    ensures
        match r {
            Some(s) => valid_utf8(bytes@) && encode_utf8(s@) == bytes@,
            None => !valid_utf8(bytes@),
        },
{
    match core::str::from_utf8(bytes) {
        Ok(s) => Some(s),
        Err(_) => None,
    }
}

/// The value that `text` writes, as `T` reads it.
///
/// Calls `str::parse`, and through it `T::from_str`. Nothing is promised of
/// the result: it is whatever the scalar type makes of the text.
#[verifier::external_body]
pub(crate) fn parse_text<T: core::str::FromStr>(text: &str) -> (r: Option<T>) {
    match text.parse::<T>() {
        Ok(x) => Some(x),
        Err(_) => None,
    }
}

/// The text of `bytes`, if they are valid UTF-8: the characters that the
/// bytes encode.
pub fn decode_text(bytes: &[u8]) -> (r: Option<String>)
    ensures
        match r {
            Some(text) => valid_utf8(bytes@) && text@ == decode_utf8(bytes@),
            None => !valid_utf8(bytes@),
        },
{
    match utf8_text(bytes) {
        Some(text) => {
            proof {
                vstd::utf8::encode_utf8_decode_utf8(text@);
            }
            Some(text.to_owned())
        },
        None => None,
    }
}

/// Reads one numeric field. The field is handed to the scalar type as text;
/// a field that is not valid UTF-8 is not a number.
pub fn read_scalar<T: core::str::FromStr>(field: &[u8]) -> (r: Option<T>)
    ensures
        !valid_utf8(field@) ==> r is None,
{
    match utf8_text(field) {
        Some(text) => parse_text(text),
        None => None,
    }
}

} // verus!
