//! Classification of HTTP response statuses.

use vstd::prelude::*;

verus! {

/// The success range of HTTP statuses: 200 to 299.
pub open spec fn in_success_range(status: u16) -> bool {
    200 <= status < 300
}

/// `reqwest::StatusCode::is_success` on the code that
/// `reqwest::StatusCode::from_u16` makes of `status`.
///
/// Trusted: for a status from 100 to 999 `from_u16` accepts the number, and
/// `is_success` then answers whether it lies in 200..300.
#[verifier::external_body]
fn status_code_is_success(status: u16) -> (success: bool)
    requires
        100 <= status <= 999,
    ensures
        success == in_success_range(status),
{
    match reqwest::StatusCode::from_u16(status) {
        Ok(code) => code.is_success(),
        Err(_) => false,
    }
}

/// Whether a response with this status counts as a successful upload.
///
/// Numbers that are no HTTP status at all (below 100 or above 999) are
/// never a success.
pub fn is_success_status(status: u16) -> (success: bool)
    ensures
        success == in_success_range(status),
{
    if status < 100 || status > 999 {
        false
    } else {
        status_code_is_success(status)
    }
}

} // verus!
