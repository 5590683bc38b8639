//! Writing values as structured data, and reading them back.

use crate::error::{viewed, DecodeError};
use crate::value::{Value, ValueView};
use vstd::prelude::*;

verus! {

/// A type whose values are written as structured data and read back from it.
///
/// An implementation says in `encodes` and `decoded` what the written form is, and proves in
/// `law_round_trip` that the two agree. Content whose type states no such form is written and
/// read by functions handed to [`Packet::encode_with`](crate::packet::Packet::encode_with) and
/// [`Packet::decode_with`](crate::packet::Packet::decode_with).
pub trait Wire: Sized + View {
    /// Whether `datum` is a way of writing `value`.
    spec fn encodes(value: Self::V, datum: ValueView) -> bool;

    /// What `datum` is read as: a value, or the reason why it is none.
    spec fn decoded(datum: ValueView) -> Result<Self::V, DecodeError>;

    /// Whatever a value is written as is read back as that value.
    proof fn law_round_trip(value: Self::V, datum: ValueView)
        requires
            Self::encodes(value, datum),
        ensures
            Self::decoded(datum) == Ok::<Self::V, DecodeError>(value),
    ;

    /// Writes the value as a datum, which reads back as the value.
    fn encode(&self) -> (datum: Value)
        ensures
            Self::encodes(self@, datum@),
            Self::decoded(datum@) == Ok::<Self::V, DecodeError>(self@),
    ;

    /// Reads a value from a datum.
    fn decode(datum: &Value) -> (read: Result<Self, DecodeError>)
        ensures
            viewed(read) == Self::decoded(datum@),
    ;
}

/// A whole number from 0 to the largest `u64` is written as that integer.
impl Wire for u64 {
    open spec fn encodes(value: u64, datum: ValueView) -> bool {
        datum == ValueView::Integer(value as int)
    }

    open spec fn decoded(datum: ValueView) -> Result<u64, DecodeError> {
        match datum {
            ValueView::Integer(n) => if 0 <= n <= u64::MAX {
                Ok(n as u64)
            } else {
                Err(DecodeError::Mismatch)
            },
            _ => Err(DecodeError::Mismatch),
        }
    }

    proof fn law_round_trip(value: u64, datum: ValueView) {
    }

    fn encode(&self) -> (datum: Value) {
        Value::Integer(*self as i128)
    }

    fn decode(datum: &Value) -> (read: Result<u64, DecodeError>) {
        match datum {
            Value::Integer(n) => {
                if 0 <= *n && *n <= u64::MAX as i128 {
                    Ok(*n as u64)
                } else {
                    Err(DecodeError::Mismatch)
                }
            },
            _ => Err(DecodeError::Mismatch),
        }
    }
}

/// A text is written as itself.
impl Wire for String {
    open spec fn encodes(value: Seq<char>, datum: ValueView) -> bool {
        datum == ValueView::Text(value)
    }

    open spec fn decoded(datum: ValueView) -> Result<Seq<char>, DecodeError> {
        match datum {
            ValueView::Text(text) => Ok(text),
            _ => Err(DecodeError::Mismatch),
        }
    }

    proof fn law_round_trip(value: Seq<char>, datum: ValueView) {
    }

    fn encode(&self) -> (datum: Value) {
        Value::Text(self.clone())
    }

    fn decode(datum: &Value) -> (read: Result<String, DecodeError>) {
        match datum {
            Value::Text(text) => Ok(text.clone()),
            _ => Err(DecodeError::Mismatch),
        }
    }
}

/// A datum is written as itself, and every datum is read as itself.
impl Wire for Value {
    open spec fn encodes(value: ValueView, datum: ValueView) -> bool {
        datum == value
    }

    open spec fn decoded(datum: ValueView) -> Result<ValueView, DecodeError> {
        Ok(datum)
    }

    proof fn law_round_trip(value: ValueView, datum: ValueView) {
    }

    fn encode(&self) -> (datum: Value) {
        self.copy()
    }

    fn decode(datum: &Value) -> (read: Result<Value, DecodeError>) {
        Ok(datum.copy())
    }
}

/// What the field `name` of `record` is read as.
///
/// The record must hold the field exactly once. A datum that is not of the field's kind makes
/// the field invalid; an error from within the datum is passed on as it is.
pub open spec fn field_of<T: Wire>(record: ValueView, name: &'static str) -> Result<
    T::V,
    DecodeError,
> {
    match record.required(name) {
        Ok(datum) => match T::decoded(datum) {
            Ok(value) => Ok(value),
            Err(e) => Err(e.within(name)),
        },
        Err(e) => Err(e),
    }
}

/// Reads the field `name` of `record`.
pub fn read_field<T: Wire>(record: &Value, name: &'static str) -> (read: Result<T, DecodeError>)
    ensures
        viewed(read) == field_of::<T>(record@, name),
{
    match record.required(name) {
        Ok(datum) => match T::decode(datum) {
            Ok(value) => Ok(value),
            Err(e) => Err(e.in_field(name)),
        },
        Err(e) => Err(e),
    }
}

/// What the field `name` of `record` is read as, where the record may leave the field out.
///
/// The record must not hold the field twice. A datum that is not of the field's kind makes the
/// field invalid; an error from within the datum is passed on as it is.
pub open spec fn optional_field_of<T: Wire>(record: ValueView, name: &'static str) -> Result<
    Option<T::V>,
    DecodeError,
> {
    match record.optional(name) {
        Ok(Some(datum)) => match T::decoded(datum) {
            Ok(value) => Ok(Some(value)),
            Err(e) => Err(e.within(name)),
        },
        Ok(None) => Ok(None),
        Err(e) => Err(e),
    }
}

/// Reads the field `name` of `record`, where the record may leave the field out.
pub fn read_optional_field<T: Wire>(record: &Value, name: &'static str) -> (read: Result<
    Option<T>,
    DecodeError,
>)
    ensures
        read matches Ok(Some(value)) ==> optional_field_of::<T>(record@, name) == Ok::<
            Option<T::V>,
            DecodeError,
        >(Some(value@)),
        read matches Ok(None) ==> optional_field_of::<T>(record@, name) == Ok::<
            Option<T::V>,
            DecodeError,
        >(None),
        read matches Err(e) ==> optional_field_of::<T>(record@, name) == Err::<
            Option<T::V>,
            DecodeError,
        >(e),
{
    match record.optional(name) {
        Ok(Some(datum)) => match T::decode(datum) {
            Ok(value) => Ok(Some(value)),
            Err(e) => Err(e.in_field(name)),
        },
        Ok(None) => Ok(None),
        Err(e) => Err(e),
    }
}

} // verus!
