//! Whole numbers in the fields of an orbit mean-elements message, which are
//! written as numbers by some sources and as text by others.

use crate::ascii::{is_unsigned_text, parse_u64, parse_u8, unsigned_value};
use vstd::prelude::*;
use vstd::utf8::encode_utf8;

verus! {

/// The value of a field.
#[derive(Debug, Clone)]
pub enum Field {
    /// A number: the unsigned integer that it is, if it is one that 64 bits
    /// hold.
    Number(Option<u64>),
    /// A text.
    Text(String),
    /// Anything else.
    Other,
}

/// Why no whole number was read from a field.
#[derive(Debug, Clone, Copy, PartialEq, Eq, Structural)]
pub enum FieldError {
    /// The number is no unsigned integer that 64 bits hold.
    NotUnsigned,
    /// The text does not write an unsigned integer of the width asked for.
    InvalidText,
    /// The field holds neither a number nor a text.
    UnexpectedKind,
}

/// The unsigned integer of at most `max` that a text writes in its bytes.
pub open spec fn text_value(text: Seq<char>, max: u64) -> Option<u64> {
    if is_unsigned_text(encode_utf8(text)) && unsigned_value(encode_utf8(text)) <= max {
        Some(unsigned_value(encode_utf8(text)) as u64)
    } else {
        None
    }
}

/// The unsigned integer of a field, of at most 64 bits.
pub open spec fn field_u64(field: Field) -> Result<u64, FieldError> {
    match field {
        Field::Number(Some(value)) => Ok(value),
        Field::Number(None) => Err(FieldError::NotUnsigned),
        Field::Text(text) => match text_value(text@, u64::MAX) {
            Some(value) => Ok(value),
            None => Err(FieldError::InvalidText),
        },
        Field::Other => Err(FieldError::UnexpectedKind),
    }
}

/// The unsigned integer of a field, of at most 8 bits. Of a number its
/// lowest 8 bits are taken; a text has to write a number that 8 bits hold.
pub open spec fn field_u8(field: Field) -> Result<u8, FieldError> {
    match field {
        Field::Number(Some(value)) => Ok((value % 256) as u8),
        Field::Number(None) => Err(FieldError::NotUnsigned),
        Field::Text(text) => match text_value(text@, 255) {
            Some(value) => Ok(value as u8),
            None => Err(FieldError::InvalidText),
        },
        Field::Other => Err(FieldError::UnexpectedKind),
    }
}

/// Reads an unsigned integer of at most 64 bits from a field that holds a
/// number or a text.
pub fn u64_or_string(field: &Field) -> (r: Result<u64, FieldError>)
    ensures
        r == field_u64(*field),
{
    match field {
        Field::Number(Some(value)) => Ok(*value),
        Field::Number(None) => Err(FieldError::NotUnsigned),
        Field::Text(text) => match parse_u64(text.as_str().as_bytes()) {
            Some(value) => Ok(value),
            None => Err(FieldError::InvalidText),
        },
        Field::Other => Err(FieldError::UnexpectedKind),
    }
}

/// Reads an unsigned integer of at most 8 bits from a field that holds a
/// number or a text.
pub fn u8_or_string(field: &Field) -> (r: Result<u8, FieldError>)
    ensures
        r == field_u8(*field),
{
    match field {
        Field::Number(Some(value)) => Ok((*value % 256) as u8),
        Field::Number(None) => Err(FieldError::NotUnsigned),
        Field::Text(text) => match parse_u8(text.as_str().as_bytes()) {
            Some(value) => Ok(value),
            None => Err(FieldError::InvalidText),
        },
        Field::Other => Err(FieldError::UnexpectedKind),
    }
}

} // verus!
