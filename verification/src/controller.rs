//! Plain request payloads of the REST surface, and the CORS wrapper the
//! responses travel in. The HTTP framework itself lives outside the
//! library.

use vstd::prelude::*;

verus! {

/// Wraps a response so the surrounding process can attach the
/// cross-origin headers before sending it.
pub struct CORS<R>(pub R);

/// The handler behind the preflight route: an empty CORS response.
pub fn options(_path: &str) -> (r: CORS<()>)
    ensures
        r.0 == (),
{
    CORS(())
}

/// The payload requesting a login confirmation code.
pub struct CreateForm {
    pub email: String,
}

/// The payload exchanging a confirmation code for a token.
pub struct ConfirmRequest {
    pub email: String,
    pub code: String,
}

/// The payload submitting one game command.
pub struct CommandRequest {
    pub command: String,
}

} // verus!
