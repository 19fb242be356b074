//! The decode error model.
//!
//! A closed set of failure kinds, all non-fatal and surfaced to the caller.
//! Lower layers only build the typed value; rendering text for a user
//! happens once, at the top of a decode, through [`Error::message`].

use vstd::prelude::*;

verus! {

/// One decode failure.
#[derive(Debug, Clone, PartialEq, Eq)]
pub enum DeError {
    /// The traversal stack was exhausted when a read was attempted: the
    /// target's schema wanted more than the input carries.
    NoMoreValuesLeft,
    /// A failure the target type's own decode logic raised, carried through
    /// as text.
    SerdeError(String),
    /// A single-scalar read, but the key carried zero or several values.
    ExpectSingleValue,
    /// Scalar coercion found the wrong node tag.
    ExpectString,
    /// String-to-character coercion saw a string that is not one character
    /// long; carries the offending string.
    ExpectChar(String),
    /// Scalar coercion found the wrong node tag.
    ExpectBoolean,
    /// Scalar coercion found the wrong node tag.
    ExpectNumber,
    /// An identifier or struct-shaped read on a frame that is not
    /// struct-shaped.
    ExpectStruct,
    /// A struct descent into a node that is not an object.
    ExpectObject,
    /// The target asked for a self-describing decode, which the format
    /// cannot satisfy.
    DataTypeNotSupported,
}

/// The error type every decode API returns; a thin wrapper around
/// [`DeError`].
#[derive(Debug, Clone, PartialEq, Eq)]
pub struct Error(pub DeError);

/// The user-facing text for each failure kind.
pub open spec fn spec_message(e: DeError) -> Seq<char> {
    match e {
        DeError::NoMoreValuesLeft => "no more values left, this should never happen"@,
        DeError::SerdeError(s) => "error from deserialization: "@ + s@,
        DeError::ExpectSingleValue => "expecting values to contain a single entry"@,
        DeError::ExpectString => "expecting string"@,
        DeError::ExpectChar(s) => "expecting string of length one, received `"@ + s@ + "`"@,
        DeError::ExpectBoolean => "expecting boolean"@,
        DeError::ExpectNumber => "expecting number"@,
        DeError::ExpectStruct => "expecting struct"@,
        DeError::ExpectObject => "needs an object to deserialize a struct"@,
        DeError::DataTypeNotSupported => "could not deserialize as datatype not supported"@,
    }
}

impl Error {
    /// Wraps text the target type's decode logic raised, as serde's
    /// `Error::custom` did.
    pub fn custom(msg: String) -> (r: Error)
        ensures
            r == Error(DeError::SerdeError(msg)),
    {
        Error(DeError::SerdeError(msg))
    }

    /// Renders the user-facing description of this failure.
    pub fn message(&self) -> (r: String)
        ensures
            r@ == spec_message(self.0),
    {
        match &self.0 {
            DeError::NoMoreValuesLeft => String::from_str(
                "no more values left, this should never happen",
            ),
            DeError::SerdeError(s) => String::from_str("error from deserialization: ").concat(
                s.as_str(),
            ),
            DeError::ExpectSingleValue => String::from_str(
                "expecting values to contain a single entry",
            ),
            DeError::ExpectString => String::from_str("expecting string"),
            DeError::ExpectChar(s) => String::from_str(
                "expecting string of length one, received `",
            ).concat(s.as_str()).concat("`"),
            DeError::ExpectBoolean => String::from_str("expecting boolean"),
            DeError::ExpectNumber => String::from_str("expecting number"),
            DeError::ExpectStruct => String::from_str("expecting struct"),
            DeError::ExpectObject => String::from_str("needs an object to deserialize a struct"),
            DeError::DataTypeNotSupported => String::from_str(
                "could not deserialize as datatype not supported",
            ),
        }
    }
}

} // verus!
