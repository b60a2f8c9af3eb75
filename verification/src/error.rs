//! The single structured error this layer reports for malformed wire input.

use vstd::prelude::*;

verus! {

/// Decoding failure. Every malformed wire value — an absent optional field,
/// an absent oneof case, a malformed identifier, an unparseable address
/// literal, an out-of-range port — is reported through this one kind, with a
/// human-readable context message.
#[derive(Debug, PartialEq, Eq)]
pub enum DecodeError {
    InvalidArgument(String),
}

impl DecodeError {
    /// Build an `InvalidArgument` error carrying `msg`.
    pub fn invalid(msg: &str) -> (r: DecodeError)
        ensures
            r matches DecodeError::InvalidArgument(m) && m@ == msg@,
    {
        DecodeError::InvalidArgument(msg.to_owned())
    }

    /// The context message carried by the error.
    pub fn message(&self) -> (r: &String)
        ensures
            self matches DecodeError::InvalidArgument(m) && r@ == m@,
    {
        match self {
            DecodeError::InvalidArgument(m) => m,
        }
    }
}

} // verus!
