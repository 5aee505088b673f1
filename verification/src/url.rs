//! Auth service endpoints.

use vstd::prelude::*;

verus! {

/// Joins the auth service's origin and a path into the endpoint URL:
/// `{origin}/{value}`.  The origin comes from the runtime's configuration.
pub fn endpoint(api_origin: &str, value: &str) -> (r: String)
    ensures
        r@ == api_origin@ + "/"@ + value@,
{
    let mut r = api_origin.to_owned();
    r.append("/");
    r.append(value);
    r
}

} // verus!
