//! The two-case error of every façade operation that performs its own stream I/O.
use vstd::prelude::*;

verus! {

/// A failure of the stream (`Io`) or of the field contract (`UserDefined`).
///
/// The two cases are never merged: a transport failure is never reported as a domain
/// failure, nor the other way round. Each wraps its error as it came.
#[derive(Debug)]
pub enum CodecError<UserDefined> {
    Io(std::io::Error),
    UserDefined(UserDefined),
}

impl<UserDefined> CodecError<UserDefined> {
    /// Whether the stream failed.
    pub fn is_io(&self) -> (r: bool)
        ensures
            r == self is Io,
    {
        match self {
            CodecError::Io(_) => true,
            CodecError::UserDefined(_) => false,
        }
    }

    /// Whether the field contract failed.
    pub fn is_user_defined(&self) -> (r: bool)
        ensures
            r == self is UserDefined,
    {
        match self {
            CodecError::Io(_) => false,
            CodecError::UserDefined(_) => true,
        }
    }

    /// The stream's error, if the stream failed.
    pub fn into_io(self) -> (r: Option<std::io::Error>)
        ensures
            r is Some <==> self is Io,
            self matches CodecError::Io(e) ==> r == Some(e),
    {
        match self {
            CodecError::Io(e) => Some(e),
            CodecError::UserDefined(_) => None,
        }
    }

    /// The field contract's error, if the field contract failed.
    pub fn into_user_defined(self) -> (r: Option<UserDefined>)
        ensures
            r is Some <==> self is UserDefined,
            self matches CodecError::UserDefined(e) ==> r == Some(e),
    {
        match self {
            CodecError::Io(_) => None,
            CodecError::UserDefined(e) => Some(e),
        }
    }
}

} // verus!
