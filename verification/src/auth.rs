//! Request authentication.

use vstd::prelude::*;
use vstd::string::*;

verus! {

/// The user every bearer token stands for until real tokens are verified.
pub const MOCK_USER_ID: i32 = 1;

/// The `Authorization` header is a bearer token.
pub open spec fn is_bearer(header: Seq<char>) -> bool {
    "Bearer "@.is_prefix_of(header)
}

/// The user a request acts as, from its `Authorization` header (`None`
/// when absent or not visible ASCII): the mock user for any bearer token,
/// no one otherwise (the request is then unauthorized).
pub fn authorize(auth_header: Option<&str>) -> (user: Option<i32>)
    ensures
        (auth_header matches Some(h) && is_bearer(h@)) ==> user == Some(MOCK_USER_ID),
        !(auth_header matches Some(h) && is_bearer(h@)) ==> user is None,
{
    match auth_header {
        Some(h) => {
            if crate::text::str_starts_with(h, "Bearer ") {
                Some(MOCK_USER_ID)
            } else {
                None
            }
        },
        None => None,
    }
}

} // verus!
