//! Error taxonomy of the orchestration layer.
//!
//! A `UserError` is caused by bad input (not your turn, unknown session, game
//! already finished) and is surfaced verbatim to the requester; it is never
//! retried. A `SystemError` covers engine and persistence failures: it is
//! surfaced as an opaque failure and the enclosing transaction is rolled
//! back.

use vstd::prelude::*;

verus! {

#[derive(Debug, Clone, PartialEq)]
pub enum Error {
    UserError(String),
    SystemError(String),
}

impl Error {
    /// True exactly when this is a caller error, to be shown to the user.
    pub fn is_user_error(&self) -> (r: bool)
        ensures
            r == (self is UserError),
    {
        match self {
            Error::UserError(_) => true,
            Error::SystemError(_) => false,
        }
    }

    /// The message carried by the error.
    pub fn message(&self) -> (r: &String)
        ensures
            r@ == self.spec_message(),
    {
        match self {
            Error::UserError(m) => m,
            Error::SystemError(m) => m,
        }
    }

    pub open spec fn spec_message(&self) -> Seq<char> {
        match self {
            Error::UserError(m) => m@,
            Error::SystemError(m) => m@,
        }
    }
}

} // verus!
