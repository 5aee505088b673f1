//! The auth service's answer.
//!
//! The auth service answers `201 Created` with a JSON body `{id, timestamp}`
//! on success, and any other status with a text body on failure.  The
//! runtime performs the HTTP exchange and the JSON parse; this module holds
//! the parsed shape and the rule that turns an answer into an outcome.

use vstd::prelude::*;

verus! {

/// The parsed body of a successful auth answer.
#[derive(Debug)]
pub struct AuthResponse {
    /// The identity the service assigned to the token's bearer.
    pub id: String,
    /// When the service made the assignment.
    pub timestamp: String,
}

/// What an auth exchange came to.
#[derive(Debug)]
pub enum AuthOutcome {
    /// Status 201 and a well-formed body: the peer is `id`.
    Granted { id: Vec<u8> },
    /// Any status other than 201; the response body text.
    Rejected { body: String },
    /// The service could not be reached, or its answer not parsed.
    Failed { cause: String },
}

/// Turns an auth answer into an outcome: the id iff the status is exactly
/// 201 and the body parsed; any other status is a rejection carrying the
/// body text; a 201 whose body did not parse is a transport-level failure.
pub fn classify_auth_response(status: u16, parsed: Option<AuthResponse>, body: String) -> (r:
    AuthOutcome)
    ensures
        ({
            match r {
                AuthOutcome::Granted { id } => status == 201 && parsed is Some && id@
                    == vstd::utf8::encode_utf8(parsed.unwrap().id@),
                AuthOutcome::Rejected { body: b } => status != 201 && b == body,
                AuthOutcome::Failed { .. } => status == 201 && parsed is None,
            }
        }),
{
    if status != 201 {
        return AuthOutcome::Rejected { body };
    }
    match parsed {
        Some(resp) => AuthOutcome::Granted { id: resp.id.as_str().as_bytes_vec() },
        None => AuthOutcome::Failed { cause: body },
    }
}

} // verus!
