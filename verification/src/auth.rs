//! The authentication boundary's error value. Token issuance and checks
//! live on the store; header parsing lives outside the library.

use vstd::prelude::*;

verus! {

/// Returned when a request carries no usable credentials.
#[derive(Debug)]
pub struct UnauthorizedError;

impl UnauthorizedError {
    /// The text shown for this error.
    pub fn message(&self) -> (r: &'static str)
        ensures
            r@ == "UnauthorizedError"@,
    {
        "UnauthorizedError"
    }
}

} // verus!
