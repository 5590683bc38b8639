//! Why a datum could not be read.

use vstd::prelude::*;

verus! {

/// The ways in which reading a datum fails.
///
/// Where a record is at fault in several fields, the field that the type declares first is the
/// one reported.
#[derive(Debug, Clone, Copy, PartialEq, Eq)]
pub enum DecodeError {
    /// The datum is not of the kind that was asked for.
    Mismatch,
    /// A record lacks a field that has no default.
    MissingField(&'static str),
    /// A record holds a field more than once.
    DuplicateField(&'static str),
    /// A record holds the field, with a datum that is not of the field's kind.
    InvalidField(&'static str),
}

impl DecodeError {
    /// The error seen from the record that holds the failing datum under `name`: a datum of the
    /// wrong kind is an invalid field of that record, and any other error is passed on as it
    /// is.
    pub open spec fn within(self, name: &'static str) -> DecodeError {
        match self {
            DecodeError::Mismatch => DecodeError::InvalidField(name),
            other => other,
        }
    }

    /// The error as the record that holds the failing datum under `name` reports it.
    pub fn in_field(self, name: &'static str) -> (seen: DecodeError)
        ensures
            seen == self.within(name),
    {
        match self {
            DecodeError::Mismatch => DecodeError::InvalidField(name),
            other => other,
        }
    }
}

/// What a reading came to, with the value that was read, if any, in its mathematical form.
pub open spec fn viewed<T: View>(read: Result<T, DecodeError>) -> Result<T::V, DecodeError> {
    match read {
        Ok(value) => Ok(value@),
        Err(e) => Err(e),
    }
}

} // verus!
