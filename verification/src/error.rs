//! Errors of the byte and text conversions.

use std::num::ParseIntError;
use std::str::Utf8Error;
use vstd::prelude::*;

verus! {

/// Error of a conversion or of serial I/O.
#[derive(Debug)]
pub enum Error {
    /// An I/O error of the serial port.
    Io(std::io::Error),
    /// A chunk of a radix string is no valid byte.
    Num(ParseIntError),
    /// Received bytes are no valid UTF-8.
    Utf8(Utf8Error),
    /// Any other error.
    Other,
}

impl From<std::io::Error> for Error {
    fn from(cause: std::io::Error) -> (e: Error) {
        Error::Io(cause)
    }
}

impl vstd::std_specs::convert::FromSpecImpl<std::io::Error> for Error {
    open spec fn obeys_from_spec() -> bool {
        true
    }

    open spec fn from_spec(cause: std::io::Error) -> Error {
        Error::Io(cause)
    }
}

impl From<ParseIntError> for Error {
    fn from(cause: ParseIntError) -> (e: Error) {
        Error::Num(cause)
    }
}

impl vstd::std_specs::convert::FromSpecImpl<ParseIntError> for Error {
    open spec fn obeys_from_spec() -> bool {
        true
    }

    open spec fn from_spec(cause: ParseIntError) -> Error {
        Error::Num(cause)
    }
}

impl From<Utf8Error> for Error {
    fn from(cause: Utf8Error) -> (e: Error) {
        Error::Utf8(cause)
    }
}

impl vstd::std_specs::convert::FromSpecImpl<Utf8Error> for Error {
    open spec fn obeys_from_spec() -> bool {
        true
    }

    open spec fn from_spec(cause: Utf8Error) -> Error {
        Error::Utf8(cause)
    }
}

/// Result with the library's error.
pub type Result<T> = std::result::Result<T, Error>;

} // verus!
