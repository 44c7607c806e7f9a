//! Error kinds shared by every operation of the library.

use vstd::prelude::*;

verus! {

/// The ways an operation can be rejected.  Every rejection leaves the
/// contract state exactly as it was: an operation either commits in full or
/// returns one of these and changes nothing.
#[derive(Clone, Copy, Debug, PartialEq, Eq, Structural)]
pub enum Error {
    /// An admin-only operation was invoked by a non-admin identity.
    Unauthorized,
    /// The circuit breaker is set; everything but an explicit resume is
    /// rejected.
    ContractStopped,
    /// Integer arithmetic would exceed its type; the call aborts rather than
    /// wrap silently.
    ArithmeticOverflow,
    /// A burn or transfer asked for more than the available balance.
    InsufficientBalance,
    /// A one-time binding was attempted a second time.
    AlreadyInitializedOnce,
}

impl Error {
    /// A plain-text name for the error, for hosts that log or display it.
    pub fn describe(&self) -> (r: &'static str) {
        match self {
            Error::Unauthorized => "unauthorized",
            Error::ContractStopped => "contract stopped",
            Error::ArithmeticOverflow => "arithmetic overflow",
            Error::InsufficientBalance => "insufficient balance",
            Error::AlreadyInitializedOnce => "can only be set once",
        }
    }
}

} // verus!
