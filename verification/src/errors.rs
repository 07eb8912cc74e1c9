//! The single error type shared by every component of the library.

use vstd::prelude::*;

verus! {

/// One tagged error kind per failure class.  Every operation of the library
/// reports its failure through this type; the kind is preserved unchanged as
/// an error propagates from the component that detected it up to the command
/// surface, where `message` turns it into a human-readable string.
#[derive(Clone, Copy, Debug, PartialEq, Eq, Structural)]
pub enum Error {
    /// A file-system operation failed (missing file, unreadable file,
    /// failed write or delete).
    IOError,
    /// A required configuration value is absent.
    ConfigError,
    /// The network transport failed before a response body was obtained.
    TransportError,
    /// A response or file body is not valid for its schema.
    DecodeError,
    /// The Users endpoint returned a number of records other than one.
    AmbiguousIdentityError,
}

impl Error {
    /// The human-readable description used at the command-surface boundary;
    /// internal layers keep the structured kind.
    pub fn message(&self) -> (r: String)
        ensures
            r@ == match *self {
                Error::IOError => "file system error"@,
                Error::ConfigError => "missing configuration value"@,
                Error::TransportError => "network transport error"@,
                Error::DecodeError => "malformed document"@,
                Error::AmbiguousIdentityError => "cannot resolve exactly one user"@,
            },
    {
        match *self {
            Error::IOError => String::from_str("file system error"),
            Error::ConfigError => String::from_str("missing configuration value"),
            Error::TransportError => String::from_str("network transport error"),
            Error::DecodeError => String::from_str("malformed document"),
            Error::AmbiguousIdentityError => String::from_str("cannot resolve exactly one user"),
        }
    }
}

} // verus!
