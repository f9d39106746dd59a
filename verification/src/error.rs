//! Error kinds of the protocol. Every failed precondition aborts the whole
//! operation; no error is recoverable.

use vstd::prelude::*;

verus! {

/// The protocol's own error kinds.
#[derive(Clone, Copy, Debug, PartialEq, Eq, Structural)]
pub enum InglError {
    /// A supplied account's address or owner differs from the expected one.
    AddressMismatch,
    /// The struct type found in an account differs from the expected one.
    InvalidStructType,
    /// A time- or sequence-gated step was attempted too early.
    TooEarly,
    /// A time- or sequence-gated step was attempted too late.
    TooLate,
    /// An operation yielded a value beyond bounds.
    BeyondBounds,
    /// The validation phrase of a stored record differs from the expected one.
    InvalidValPhrase,
    /// The account was expected to be a buffer account.
    ExpectedBufferAccount,
    /// An expected-present optional value was absent.
    OptionUnwrapError,
    /// Malformed input data.
    InvalidData,
    /// The caller is not allowed to perform this operation.
    NotAuthorized,
}

/// Everything an operation can fail with: one of the protocol's own error
/// kinds, or a missing signature on an account that must have signed.
#[derive(Clone, Copy, Debug, PartialEq, Eq, Structural)]
pub enum MarketError {
    Ingl(InglError),
    MissingRequiredSignature,
}

impl InglError {
    /// Turns an error kind into the error an operation returns.
    pub fn utilize(self) -> (r: MarketError)
        ensures
            r == MarketError::Ingl(self),
    {
        MarketError::Ingl(self)
    }
}

} // verus!
