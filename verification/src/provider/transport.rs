//! The endpoint that requests go to.
use vstd::prelude::*;

use crate::error::Error;

use crate::text::all_ws;

verus! {

/// The endpoint that requests use: the configured one.
pub fn endpoint(configured: &str) -> (r: String)
    ensures
        r@ == configured@,
{
    String::from_str(configured)
}

/// The endpoint with a test override: a non-blank override replaces the
/// configured endpoint.
pub fn endpoint_with_override(configured: &str, override_value: Option<&str>) -> (r: String)
    ensures
        r@ == match override_value {
            Some(v) => if all_ws(v@) {
                configured@
            } else {
                v@
            },
            None => configured@,
        },
{
    match override_value {
        Some(v) => {
            if crate::text::is_blank(v) {
                String::from_str(configured)
            } else {
                String::from_str(v)
            }
        },
        None => String::from_str(configured),
    }
}


/// The error for a chat response whose status is not a success: a refused
/// credential (401) is an authentication error; any other status is an API
/// error that carries the response body.
pub fn chat_status_error(status: u16, body: String) -> (r: Error)
    ensures
        if status == 401 {
            r matches Error::AuthError(m) && m@ == "authentication failed"@
        } else {
            r == (Error::ApiError { status, message: body })
        },
{
    if status == 401 {
        Error::AuthError(String::from_str("authentication failed"))
    } else {
        Error::ApiError { status, message: body }
    }
}

} // verus!
