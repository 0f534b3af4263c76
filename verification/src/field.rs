//! A JSON field value as the decoders of this crate read it, and the
//! numeric decoders shared by both data sources.

use vstd::prelude::*;
use crate::text::{
    decimal_text, lemma_parse_decimal_text, lemma_parse_signs, parse_i32, parse_integer, parse_u128,
    parse_u32, NumberError,
};

verus! {

/// The value of one JSON field, reduced to what the decoders look at.
/// A number carries what it reads as when taken as a `u64` and as an `i64`
/// (`None` where it is not such an integer, e.g. a negative number as `u64`
/// or a fractional number).
#[derive(Clone, Debug, PartialEq, Eq)]
pub enum JsonField {
    Null,
    Text(String),
    Number { unsigned: Option<u64>, signed: Option<i64> },
    Other,
}

/// Why a field was refused.
#[derive(Clone, Debug, PartialEq, Eq)]
pub enum FieldError {
    /// The field has a JSON type that the decoder does not take.
    WrongType,
    /// The field is text that names no known variant; the text is kept.
    UnknownName(String),
    /// The field is text that is not a valid numeral.
    BadNumber(NumberError),
}

/// Decoding of a `u32` field that is either a numeral in text or a JSON number.
pub open spec fn field_u32(f: JsonField) -> Result<u32, FieldError> {
    match f {
        JsonField::Text(s) => match parse_integer(s@, 0, u32::MAX as int) {
            Ok(v) => Ok(v as u32),
            Err(e) => Err(FieldError::BadNumber(e)),
        },
        JsonField::Number { unsigned, .. } => Ok(unsigned.unwrap() as u32),
        _ => Err(FieldError::WrongType),
    }
}

/// Decoding of an `i32` field that is either a numeral in text or a JSON number.
pub open spec fn field_i32(f: JsonField) -> Result<i32, FieldError> {
    match f {
        JsonField::Text(s) => match parse_integer(s@, i32::MIN as int, i32::MAX as int) {
            Ok(v) => Ok(v as i32),
            Err(e) => Err(FieldError::BadNumber(e)),
        },
        JsonField::Number { signed, .. } => Ok(signed.unwrap() as i32),
        _ => Err(FieldError::WrongType),
    }
}

/// Decoding of an unsigned field that must be a numeral in text, for a type
/// whose largest value is `max`.
pub open spec fn text_field_unsigned(f: JsonField, max: int) -> Result<int, FieldError> {
    match f {
        JsonField::Text(s) => match parse_integer(s@, 0, max) {
            Ok(v) => Ok(v),
            Err(e) => Err(FieldError::BadNumber(e)),
        },
        _ => Err(FieldError::WrongType),
    }
}

/// Reads a `u32` from text or from a JSON number; a JSON number is cut to
/// its low 32 bits (`as u32`). A JSON number must read as a `u64`.
pub fn u32_from_field(f: &JsonField) -> (r: Result<u32, FieldError>)
    requires
        f is Number ==> f->unsigned is Some,
    ensures
        r == field_u32(*f),
{
    match f {
        JsonField::Text(s) => match parse_u32(s.as_str()) {
            Ok(v) => Ok(v),
            Err(e) => Err(FieldError::BadNumber(e)),
        },
        JsonField::Number { unsigned, .. } => match unsigned {
            Some(u) => Ok(*u as u32),
            None => Err(FieldError::WrongType),
        },
        _ => Err(FieldError::WrongType),
    }
}

/// Reads an `i32` from text or from a JSON number; a JSON number is cut to
/// its low 32 bits (`as i32`). A JSON number must read as an `i64`.
pub fn i32_from_field(f: &JsonField) -> (r: Result<i32, FieldError>)
    requires
        f is Number ==> f->signed is Some,
    ensures
        r == field_i32(*f),
{
    match f {
        JsonField::Text(s) => match parse_i32(s.as_str()) {
            Ok(v) => Ok(v),
            Err(e) => Err(FieldError::BadNumber(e)),
        },
        JsonField::Number { signed, .. } => match signed {
            Some(v) => Ok(*v as i32),
            None => Err(FieldError::WrongType),
        },
        _ => Err(FieldError::WrongType),
    }
}

/// Reads a `u32` that must be given as a numeral in text.
pub fn u32_from_text_field(f: &JsonField) -> (r: Result<u32, FieldError>)
    ensures
        (match text_field_unsigned(*f, u32::MAX as int) {
            Ok(v) => r == Ok::<u32, FieldError>(v as u32),
            Err(e) => r == Err::<u32, FieldError>(e),
        }),
{
    match f {
        JsonField::Text(s) => match parse_u32(s.as_str()) {
            Ok(v) => Ok(v),
            Err(e) => Err(FieldError::BadNumber(e)),
        },
        _ => Err(FieldError::WrongType),
    }
}

/// Reads a `u128` that must be given as a numeral in text.
pub fn u128_from_text_field(f: &JsonField) -> (r: Result<u128, FieldError>)
    ensures
        (match text_field_unsigned(*f, u128::MAX as int) {
            Ok(v) => r == Ok::<u128, FieldError>(v as u128),
            Err(e) => r == Err::<u128, FieldError>(e),
        }),
{
    match f {
        JsonField::Text(s) => match parse_u128(s.as_str()) {
            Ok(v) => Ok(v),
            Err(e) => Err(FieldError::BadNumber(e)),
        },
        _ => Err(FieldError::WrongType),
    }
}

/// A field holding the written numeral of a number decodes to that number
/// when the target type holds it, and is refused as an overflow otherwise;
/// a JSON value that is neither text nor a number is refused as of the wrong
/// type.
pub proof fn lemma_field_numerals(s: String, n: nat)
    requires
        s@ == decimal_text(n),
    ensures
        n <= u32::MAX ==> field_u32(JsonField::Text(s)) == Ok::<u32, FieldError>(n as u32),
        n > u32::MAX ==> field_u32(JsonField::Text(s)) == Err::<u32, FieldError>(
            FieldError::BadNumber(NumberError::PosOverflow),
        ),
        n <= i32::MAX ==> field_i32(JsonField::Text(s)) == Ok::<i32, FieldError>(n as i32),
        n <= u128::MAX ==> text_field_unsigned(JsonField::Text(s), u128::MAX as int) == Ok::<
            int,
            FieldError,
        >(n as int),
        field_u32(JsonField::Null) == Err::<u32, FieldError>(FieldError::WrongType),
        field_i32(JsonField::Other) == Err::<i32, FieldError>(FieldError::WrongType),
        text_field_unsigned(JsonField::Null, u128::MAX as int) == Err::<int, FieldError>(
            FieldError::WrongType,
        ),
{
    if n <= u32::MAX {
        lemma_parse_decimal_text(n, 0, u32::MAX as int);
    } else {
        lemma_parse_signs(n, 0, u32::MAX as int);
    }
    if n <= i32::MAX {
        lemma_parse_decimal_text(n, i32::MIN as int, i32::MAX as int);
    }
    if n <= u128::MAX {
        lemma_parse_decimal_text(n, 0, u128::MAX as int);
    }
}

} // verus!
