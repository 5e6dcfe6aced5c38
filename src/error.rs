use vstd::prelude::*;

verus! {

/// Everything that a caller can do wrong when asking for a Balloon hash.
#[derive(Debug, Copy, Clone, PartialEq, Eq, Structural)]
pub enum Error {
    /// The salt is shorter than four bytes.
    InvalidSalt,
    /// The space cost is zero.
    InvalidSpace,
    /// The time cost is zero.
    InvalidTime,
    /// Two byte strings handed to a comparison are malformed or differ.
    InvalidFormat,
}

impl Error {
    /// A human-readable description of the error.
    pub fn message(&self) -> (r: &'static str) {
        match self {
            Error::InvalidSalt => "salt must be at least 4 bytes long",
            Error::InvalidSpace => "space must be greater than the digest length",
            Error::InvalidTime => "time must be greater than or equal to 1",
            Error::InvalidFormat => "invalid format is passed to Balloon",
        }
    }
}

} // verus!
