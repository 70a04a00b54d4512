//! Who may call the service: a request must carry an authorization header.

use vstd::prelude::*;
use crate::error::ApiError;

verus! {

/// The HTTP status that answers a request without authorization.
pub const UNAUTHORIZED: u16 = 401;

/// Checks the signature that a request carries. Every signature is taken
/// for good: the service has no scheme yet by which to tell users apart.
pub fn authenticate_user(_signature: &str) -> (user: Option<Result<bool, ApiError>>)
    ensures
        user == Some(Ok::<bool, ApiError>(true)),
{
    Some(Ok(true))
}

/// Decides whether a request goes on to its handler. `header` is the text
/// of the request's authorization header, missing where the request has none
/// or its value is no text. A request without it is answered with
/// `UNAUTHORIZED`; any other goes on, and carries the user that was found.
pub fn authorize_middleware(header: Option<&str>) -> (admitted: Result<
    Result<bool, ApiError>,
    u16,
>)
    ensures
        match header {
            Some(_) => admitted == Ok::<Result<bool, ApiError>, u16>(Ok(true)),
            None => admitted == Err::<Result<bool, ApiError>, u16>(UNAUTHORIZED),
        },
{
    let auth_header = match header {
        Some(auth_header) => auth_header,
        None => {
            return Err(UNAUTHORIZED);
        },
    };
    match authenticate_user(auth_header) {
        Some(current_user) => Ok(current_user),
        None => Err(UNAUTHORIZED),
    }
}

} // verus!
