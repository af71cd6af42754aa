//! Errors of a Firmata connection.

use vstd::prelude::*;

verus! {

/// `std::io::Error`, carried opaquely by [`FirmataError`].
#[verifier::external_type_specification]
#[verifier::external_body]
pub struct ExIoError(std::io::Error);

/// What can end a Firmata connection.
#[derive(Debug)]
pub enum FirmataError {
    /// Reading from or writing to the client failed.
    ConnectionError(std::io::Error),
}

} // verus!
