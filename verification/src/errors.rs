//! The single failure channel of the conversion engine.
//!
//! Every fallible operation of the serializer and the deserializer returns an
//! [`Error`] holding one [`ErrorKind`], a closed set in which each kind
//! describes exactly one failure mode. Errors are never recovered locally:
//! a failure aborts the conversion and surfaces to the caller.

use vstd::prelude::*;

verus! {

/// Specification-level image of an [`ErrorKind`]: lengths as mathematical
/// integers, text as character sequences.
pub enum ErrorKindV {
    StringTooLong(int),
    UnableToCoerce(Seq<char>),
    EmptyString,
    StringTooLongForChar(int),
    ExpectingNull,
    InvalidKeyType(Seq<char>),
    ArrayIndexOutOfBounds(int, int),
    NotImplemented(Seq<char>),
    HostException,
    NumericCastFailure,
    Custom(Seq<char>),
}

/// One failure mode of the conversion engine.
#[derive(Debug)]
pub enum ErrorKind {
    /// The host has a hard limit on string length; a string value longer than
    /// that limit is refused rather than truncated. Carries the actual length.
    StringTooLong(usize),
    /// The dynamic value's runtime kind does not fit the requested shape.
    /// Carries the name of the requested target shape.
    UnableToCoerce(String),
    /// A character was requested from an empty string.
    EmptyString,
    /// A character was requested from a string of more than one character.
    /// Carries the actual length.
    StringTooLongForChar(usize),
    /// A null or undefined value was required and another kind was found.
    ExpectingNull,
    /// A map key did not serialize to a string, or an object offered to enum
    /// decoding did not have exactly one property. Carries the runtime kind
    /// of the offending key, or the first surplus property name (empty when
    /// the object has no property at all).
    InvalidKeyType(String),
    /// An array element was requested past the end, or a fixed arity did not
    /// match an array's length. Carries the index (or arity) and the size.
    ArrayIndexOutOfBounds(usize, usize),
    /// The requested feature is outside this engine. Carries its name.
    NotImplemented(String),
    /// The host runtime signalled an error; it must cross back to the host
    /// unchanged, never be rewrapped.
    HostException,
    /// A numeric value needs more precision than the host's number carries.
    NumericCastFailure,
    /// A message from the structured-value library itself.
    Custom(String),
}

impl View for ErrorKind {
    type V = ErrorKindV;

    open spec fn view(&self) -> ErrorKindV {
        match self {
            ErrorKind::StringTooLong(n) => ErrorKindV::StringTooLong(*n as int),
            ErrorKind::UnableToCoerce(s) => ErrorKindV::UnableToCoerce(s@),
            ErrorKind::EmptyString => ErrorKindV::EmptyString,
            ErrorKind::StringTooLongForChar(n) => ErrorKindV::StringTooLongForChar(*n as int),
            ErrorKind::ExpectingNull => ErrorKindV::ExpectingNull,
            ErrorKind::InvalidKeyType(s) => ErrorKindV::InvalidKeyType(s@),
            ErrorKind::ArrayIndexOutOfBounds(i, n) => ErrorKindV::ArrayIndexOutOfBounds(
                *i as int,
                *n as int,
            ),
            ErrorKind::NotImplemented(s) => ErrorKindV::NotImplemented(s@),
            ErrorKind::HostException => ErrorKindV::HostException,
            ErrorKind::NumericCastFailure => ErrorKindV::NumericCastFailure,
            ErrorKind::Custom(s) => ErrorKindV::Custom(s@),
        }
    }
}

/// An error of the conversion engine, wrapping exactly one [`ErrorKind`].
#[derive(Debug)]
pub struct Error(pub ErrorKind);

impl View for Error {
    type V = ErrorKindV;

    open spec fn view(&self) -> ErrorKindV {
        self.0@
    }
}

impl Error {
    /// The kind of failure this error reports.
    pub fn kind(&self) -> (k: &ErrorKind)
        ensures
            k@ == self@,
    {
        &self.0
    }

    /// An error carrying a free-form message from the structured-value
    /// library.
    pub fn custom(msg: String) -> (e: Error)
        ensures
            e@ == ErrorKindV::Custom(msg@),
    {
        Error(ErrorKind::Custom(msg))
    }
}

impl From<ErrorKind> for Error {
    fn from(kind: ErrorKind) -> (e: Error) {
        Error(kind)
    }
}

impl vstd::std_specs::convert::FromSpecImpl<ErrorKind> for Error {
    open spec fn obeys_from_spec() -> bool {
        true
    }

    open spec fn from_spec(kind: ErrorKind) -> Error {
        Error(kind)
    }
}

/// The image of a conversion result: the value's own view on success, the
/// error's kind on failure.
pub open spec fn res_view<T: View>(r: Result<T, Error>) -> Result<T::V, ErrorKindV> {
    match r {
        Ok(t) => Ok(t@),
        Err(e) => Err(e@),
    }
}

} // verus!
