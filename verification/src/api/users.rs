//! The current user's profile and the user search.

use crate::error::AppError;
use crate::models::user::{UserPutPayload, UserSearchQuery, UserUpdatePayload};
use crate::text::{is_blank, is_blank_str};
use vstd::prelude::*;
use vstd::string::*;

verus! {

/// The answer when the authenticated user has no profile.
pub fn user_not_found() -> (e: AppError)
    ensures
        e matches AppError::NotFound(m) && m@ == "User not found"@,
{
    AppError::not_found("User not found")
}

/// `PATCH /users/me`: a name or email that is given must not be blank
/// (white space only); the name is checked first.
pub fn validate_user_patch(p: &UserUpdatePayload) -> (r: Result<(), AppError>)
    ensures
        (p.name matches Some(n) && is_blank(n@)) ==> (r matches Err(AppError::Unprocessable(m))
            && m@ == "name cannot be empty"@),
        !(p.name matches Some(n) && is_blank(n@)) && (p.email matches Some(e) && is_blank(e@))
            ==> (r matches Err(AppError::Unprocessable(m)) && m@ == "email cannot be empty"@),
        !(p.name matches Some(n) && is_blank(n@)) && !(p.email matches Some(e) && is_blank(e@))
            ==> r is Ok,
{
    match &p.name {
        Some(n) => {
            if is_blank_str(n.as_str()) {
                return Err(AppError::unprocessable("name cannot be empty"));
            }
        },
        None => {},
    }
    match &p.email {
        Some(e) => {
            if is_blank_str(e.as_str()) {
                return Err(AppError::unprocessable("email cannot be empty"));
            }
        },
        None => {},
    }
    Ok(())
}

/// `PUT /users/me`: name and email must not be blank; the name is checked first.
pub fn validate_user_put(p: &UserPutPayload) -> (r: Result<(), AppError>)
    ensures
        is_blank(p.name@) ==> (r matches Err(AppError::Unprocessable(m)) && m@
            == "name cannot be empty"@),
        !is_blank(p.name@) && is_blank(p.email@) ==> (r matches Err(AppError::Unprocessable(m))
            && m@ == "email cannot be empty"@),
        !is_blank(p.name@) && !is_blank(p.email@) ==> r is Ok,
{
    if is_blank_str(p.name.as_str()) {
        return Err(AppError::unprocessable("name cannot be empty"));
    }
    if is_blank_str(p.email.as_str()) {
        return Err(AppError::unprocessable("email cannot be empty"));
    }
    Ok(())
}

/// The number of hits of a user search: 10 by default, kept within 1..=50.
pub open spec fn search_limit(limit: Option<i64>) -> i64 {
    let l = match limit {
        Some(l) => l,
        None => 10,
    };
    if l < 1 {
        1
    } else if l > 50 {
        50
    } else {
        l
    }
}

/// `GET /users/search`: a blank query is a bad request; on success, the
/// number of hits to return.
pub fn validate_user_search(q: &UserSearchQuery) -> (r: Result<i64, AppError>)
    ensures
        is_blank(q.q@) ==> (r matches Err(AppError::BadRequest(m)) && m@ == "q cannot be empty"@),
        !is_blank(q.q@) ==> r == Ok::<i64, AppError>(search_limit(q.limit)),
{
    if is_blank_str(q.q.as_str()) {
        return Err(AppError::bad_request("q cannot be empty"));
    }
    let l = match q.limit {
        Some(l) => l,
        None => 10,
    };
    let limit = if l < 1 {
        1
    } else if l > 50 {
        50
    } else {
        l
    };
    Ok(limit)
}


/// A user search answers 10 hits unless a number is given, never fewer
/// than 1 and never more than 50; a query of only white space (or none at
/// all) is blank, one with a letter is not.
pub proof fn lemma_user_search_limits(limit: Option<i64>, q: Seq<char>)
    ensures
        limit is None ==> search_limit(limit) == 10,
        limit matches Some(l) ==> (1 <= l <= 50 ==> search_limit(limit) == l),
        limit matches Some(l) ==> (l < 1 ==> search_limit(limit) == 1),
        limit matches Some(l) ==> (l > 50 ==> search_limit(limit) == 50),
        q.len() == 0 ==> is_blank(q),
        (exists|i: int| 0 <= i < q.len() && 'a' <= #[trigger] q[i] <= 'z') ==> !is_blank(q),
{
    if exists|i: int| 0 <= i < q.len() && 'a' <= #[trigger] q[i] <= 'z' {
        let i = choose|i: int| 0 <= i < q.len() && 'a' <= #[trigger] q[i] <= 'z';
        assert(!crate::text::is_white_space(q[i]));
    }
}

} // verus!
