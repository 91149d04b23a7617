//! Error taxonomy and its mapping to HTTP status codes.

use vstd::prelude::*;

verus! {

/// What can go wrong in the store and at the API boundary.
///
/// `NotFound` is returned both when a row is absent and when it exists but is
/// owned by another account: the two are deliberately indistinguishable, so
/// that no caller learns of another account's rows.
#[derive(Clone, Copy, PartialEq, Eq, Structural, Debug)]
pub enum StoreError {
    /// Malformed or missing input.
    Validation,
    /// No row matches the requested id/owner combination.
    NotFound,
    /// Missing or invalid session, or rejected credentials.
    Unauthorized,
    /// A uniqueness constraint was violated, e.g. a duplicate email.
    Conflict,
    /// Any other storage or hashing failure.
    Persistence,
}

impl StoreError {
    /// The HTTP status code this error is surfaced as.
    pub fn status_code(&self) -> (code: u16)
        ensures
            code == self.spec_status_code(),
    {
        match self {
            StoreError::Validation => 400,
            StoreError::NotFound => 404,
            StoreError::Unauthorized => 401,
            StoreError::Conflict => 409,
            StoreError::Persistence => 500,
        }
    }

    pub open spec fn spec_status_code(self) -> u16 {
        match self {
            StoreError::Validation => 400,
            StoreError::NotFound => 404,
            StoreError::Unauthorized => 401,
            StoreError::Conflict => 409,
            StoreError::Persistence => 500,
        }
    }
}

} // verus!
