//! The error taxonomy shared by every ledger operation.

use vstd::prelude::*;

verus! {

/// What a ledger operation can fail with. Every operation is all-or-nothing:
/// an error means the ledger state it was handed is left untouched.
#[derive(Clone, Copy, Debug, PartialEq, Eq, Structural)]
pub enum Error {
    /// A row the operation needs is absent, or the point balance is too low.
    NotFound,
    /// The request carries nothing to change.
    EmptyUpdateSet,
    /// The request carries a value the ledger never accepts.
    Validation,
    /// An ordering parameter names a column that may not be sorted by.
    InvalidOrder,
    /// A per-user or per-scope mint cap is already met.
    LimitReached,
    /// A failure the taxonomy cannot name.
    Unknown,
    /// The storage engine failed; the enclosing transaction is aborted.
    Storage,
}

impl Error {
    /// The HTTP status each kind maps to at the API boundary.
    pub fn http_status(&self) -> (s: u16)
        ensures
            s == match *self {
                Error::EmptyUpdateSet | Error::InvalidOrder | Error::Validation => 400u16,
                Error::NotFound => 404u16,
                Error::LimitReached => 409u16,
                Error::Unknown | Error::Storage => 500u16,
            },
    {
        match self {
            Error::EmptyUpdateSet | Error::InvalidOrder | Error::Validation => 400,
            Error::NotFound => 404,
            Error::LimitReached => 409,
            Error::Unknown | Error::Storage => 500,
        }
    }
}

} // verus!
