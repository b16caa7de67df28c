//! The errors of the store: a failure of the filesystem, or a key that is not text.

use vstd::prelude::*;
use crate::key::KeyEncodingError;

verus! {

#[verifier::external_type_specification]
#[verifier::external_body]
pub struct ExIoError(std::io::Error);

/// Why an operation of the store failed.
#[derive(Debug)]
pub enum Error {
    /// The filesystem refused a step (a missing file among them).
    Io(std::io::Error),
    /// The key is not valid UTF-8.
    Utf8Error(KeyEncodingError),
}

impl From<std::io::Error> for Error {
    fn from(err: std::io::Error) -> (r: Error)
        ensures
            r == Error::Io(err),
    {
        Error::Io(err)
    }
}

impl vstd::std_specs::convert::FromSpecImpl<std::io::Error> for Error {
    open spec fn obeys_from_spec() -> bool {
        true
    }

    open spec fn from_spec(err: std::io::Error) -> Error {
        Error::Io(err)
    }
}

impl From<KeyEncodingError> for Error {
    fn from(err: KeyEncodingError) -> (r: Error)
        ensures
            r == Error::Utf8Error(err),
    {
        Error::Utf8Error(err)
    }
}

impl vstd::std_specs::convert::FromSpecImpl<KeyEncodingError> for Error {
    open spec fn obeys_from_spec() -> bool {
        true
    }

    open spec fn from_spec(err: KeyEncodingError) -> Error {
        Error::Utf8Error(err)
    }
}

} // verus!
