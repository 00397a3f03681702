//! What the library needs to know of HTTP.

use vstd::prelude::*;

verus! {

/// A status from 200 to 299.
pub open spec fn is_success(code: u16) -> bool {
    200 <= code < 300
}

/// Tests a status for success.
pub fn status_is_success(code: u16) -> (b: bool)
    ensures
        b == is_success(code),
{
    200 <= code && code < 300
}

} // verus!
