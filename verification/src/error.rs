//! The ways in which parsing an address or resolving the settings can fail.

use vstd::prelude::*;

verus! {

/// Why an address string, or a list of them, was rejected.
#[derive(Debug, Clone, Copy, PartialEq, Eq, Structural)]
pub enum ParseError {
    /// The string's shape matches neither classification rule.
    UnknownAddressType,
    /// A port follows the colon but is not an unsigned 16-bit decimal number.
    InvalidPort,
    /// The string was classified as IPv6, which is not handled.
    UnsupportedFamily,
    /// Exactly one address was required and zero or several were given.
    ExpectedSingleAddress,
}

/// A result as contracts speak of it: the error as it is, the value by its
/// mathematical model.
pub open spec fn modelled<T: DeepView>(r: Result<T, ParseError>) -> Result<T::V, ParseError> {
    match r {
        Ok(value) => Ok(value.deep_view()),
        Err(e) => Err(e),
    }
}

} // verus!
