//! Errors returned by the library's fallible operations.  Failures observed
//! while the network runs are not returned but reported as `Error` events.

use vstd::prelude::*;

verus! {

/// Error returned directly from a library call.
#[derive(Clone, Copy, PartialEq, Eq, Structural, Debug)]
pub enum Error {
    /// A peer identifier held a byte outside the Base58 alphabet.
    Base58,
    /// A secret key had the wrong number of bytes.
    SecretLength,
    /// A display name was too long to frame.
    NameLength,
}

impl Error {
    /// A short description, in place of a formatting trait.
    pub fn to_text(&self) -> (r: &'static str)
        ensures
            *self is Base58 ==> r@ == "base58 decode error"@,
            *self is SecretLength ==> r@ == "bad secret key length"@,
            *self is NameLength ==> r@ == "display name too long"@,
    {
        match self {
            Error::Base58 => "base58 decode error",
            Error::SecretLength => "bad secret key length",
            Error::NameLength => "display name too long",
        }
    }
}

} // verus!
