//! User profile models.

use vstd::prelude::*;

verus! {

/// The public profile of a user.
#[derive(Debug, Clone)]
pub struct User {
    pub id: i64,
    pub name: String,
    pub email: String,
    pub profile_picture: Option<String>,
}

/// Partial profile update: only the fields given are changed.
#[derive(Debug, Clone)]
pub struct UserUpdatePayload {
    pub name: Option<String>,
    pub email: Option<String>,
}

/// Full profile update.
#[derive(Debug, Clone)]
pub struct UserPutPayload {
    pub name: String,
    pub email: String,
}

/// Query of the user search used by invitation dropdowns.
#[derive(Debug, Clone)]
pub struct UserSearchQuery {
    pub q: String,
    pub limit: Option<i64>,
}

/// A compact search hit.
#[derive(Debug, Clone)]
pub struct UserSearchItem {
    pub id: i64,
    pub name: String,
    pub profile_picture: Option<String>,
}

/// The hits of a user search.
#[derive(Debug, Clone)]
pub struct UserSearchResponse {
    pub data: Vec<UserSearchItem>,
}

/// The content hash of a newly set profile picture.
#[derive(Debug, Clone)]
pub struct ProfilePictureResponse {
    pub profile_picture: String,
}

} // verus!
