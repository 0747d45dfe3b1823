//! The health-check response, fixed and independent of storage state.

use vstd::prelude::*;

verus! {

/// The body of the health-check response.
pub open spec fn spec_health_message() -> Seq<char> {
    "{\"status\":\"success\",\"message\":\"100% healthy\"}"@
}

/// The fixed JSON body of the health-check response.
pub fn health_message() -> (r: String)
    ensures
        r@ == spec_health_message(),
{
    "{\"status\":\"success\",\"message\":\"100% healthy\"}".to_owned()
}

/// The status of the health-check response, always success.
pub fn health_status() -> (r: u16)
    ensures
        r == 200,
{
    200
}

} // verus!
