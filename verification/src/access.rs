//! Recipe permissions: who may view, edit, delete and copy a recipe.
//!
//! | Action      | Owner | Editor | Viewer | Other |
//! |-------------|-------|--------|--------|-------|
//! | View        | yes   | yes    | yes    | no    |
//! | Edit        | yes   | yes    | no     | no    |
//! | Delete      | yes   | no     | no     | no    |
//! | Copy        | yes   | yes    | yes    | no    |

use crate::error::AppError;
use vstd::prelude::*;

verus! {

pub open spec fn can_view(owner: i64, editors: Seq<i64>, viewers: Seq<i64>, user: i64) -> bool {
    owner == user || editors.contains(user) || viewers.contains(user)
}

pub open spec fn can_edit(owner: i64, editors: Seq<i64>, user: i64) -> bool {
    owner == user || editors.contains(user)
}

pub open spec fn can_delete(owner: i64, user: i64) -> bool {
    owner == user
}

pub open spec fn can_copy(owner: i64, editors: Seq<i64>, viewers: Seq<i64>, user: i64) -> bool {
    can_view(owner, editors, viewers, user)
}

/// The permissions matrix: deleting needs ownership, ownership or an editor
/// role allows editing, and whoever may edit may view; copying is allowed
/// exactly to those who may view. The owner may do everything, a viewer only
/// view and copy, and a user with no role nothing.
pub proof fn lemma_permission_matrix(owner: i64, editors: Seq<i64>, viewers: Seq<i64>, user: i64)
    ensures
        can_delete(owner, user) ==> can_edit(owner, editors, user),
        can_edit(owner, editors, user) ==> can_view(owner, editors, viewers, user),
        can_copy(owner, editors, viewers, user) == can_view(owner, editors, viewers, user),
        owner == user ==> can_view(owner, editors, viewers, user) && can_edit(owner, editors, user)
            && can_delete(owner, user) && can_copy(owner, editors, viewers, user),
        owner != user && editors.contains(user) ==> can_view(owner, editors, viewers, user)
            && can_edit(owner, editors, user) && !can_delete(owner, user),
        owner != user && !editors.contains(user) && viewers.contains(user) ==> can_view(
            owner,
            editors,
            viewers,
            user,
        ) && !can_edit(owner, editors, user) && !can_delete(owner, user) && can_copy(
            owner,
            editors,
            viewers,
            user,
        ),
        owner != user && !editors.contains(user) && !viewers.contains(user) ==> !can_view(
            owner,
            editors,
            viewers,
            user,
        ) && !can_edit(owner, editors, user) && !can_delete(owner, user) && !can_copy(
            owner,
            editors,
            viewers,
            user,
        ),
{
}

/// Whether `id` is in `ids`.
pub fn contains_id(ids: &Vec<i64>, id: i64) -> (r: bool)
    ensures
        r == ids@.contains(id),
{
    let n = ids.len();
    let mut i: usize = 0;
    while i < n
        invariant
            n == ids@.len(),
            i <= n,
            forall|j: int| 0 <= j < i ==> ids@[j] != id,
        decreases n - i,
    {
        if ids[i] == id {
            return true;
        }
        i = i + 1;
    }
    false
}

/// The roles on a stored recipe.
pub struct RecipeAccess {
    pub owner_id: i64,
    pub editors: Vec<i64>,
    pub viewers: Vec<i64>,
}

/// Whether `user_id` may view the recipe.
pub fn may_view(access: &RecipeAccess, user_id: i64) -> (r: bool)
    ensures
        r == can_view(access.owner_id, access.editors@, access.viewers@, user_id),
{
    access.owner_id == user_id || contains_id(&access.editors, user_id) || contains_id(
        &access.viewers,
        user_id,
    )
}

/// Whether `user_id` may edit the recipe.
pub fn may_edit(access: &RecipeAccess, user_id: i64) -> (r: bool)
    ensures
        r == can_edit(access.owner_id, access.editors@, user_id),
{
    access.owner_id == user_id || contains_id(&access.editors, user_id)
}

/// `GET /recipes/{id}` (and copying): not found when there is no such
/// recipe, forbidden unless the user may view it.
pub fn authorize_read(found: Option<&RecipeAccess>, user_id: i64) -> (r: Result<(), AppError>)
    ensures
        found is None ==> (r matches Err(AppError::NotFound(m)) && m@ == "Recipe not found"@),
        found matches Some(a) && !can_view(a.owner_id, a.editors@, a.viewers@, user_id) ==> (r
            matches Err(AppError::Forbidden)),
        found matches Some(a) && can_view(a.owner_id, a.editors@, a.viewers@, user_id) ==> r is Ok,
{
    match found {
        None => Err(AppError::not_found("Recipe not found")),
        Some(a) => {
            if may_view(a, user_id) {
                Ok(())
            } else {
                Err(AppError::Forbidden)
            }
        },
    }
}

/// Updating a recipe: given the stored owner and whether the user is among
/// its editors (`None` read as `false`), not found when there is no such
/// recipe and forbidden unless the user is the owner or an editor.
pub fn check_can_edit(found: Option<(i64, Option<bool>)>, user_id: i64) -> (r: Result<(), AppError>)
    ensures
        found is None ==> (r matches Err(AppError::NotFound(m)) && m@ == "Recipe not found"@),
        found matches Some((owner, is_editor)) && !(owner == user_id || is_editor == Some(true))
            ==> (r matches Err(AppError::Forbidden)),
        found matches Some((owner, is_editor)) && (owner == user_id || is_editor == Some(true))
            ==> r is Ok,
{
    match found {
        None => Err(AppError::not_found("Recipe not found")),
        Some((owner, is_editor)) => {
            let editor = match is_editor {
                Some(b) => b,
                None => false,
            };
            if owner != user_id && !editor {
                Err(AppError::Forbidden)
            } else {
                Ok(())
            }
        },
    }
}

/// `DELETE /recipes/{id}` deletes only the user's own recipe. When nothing
/// was deleted, the recipe is forbidden if it exists (`Some(true)`) and not
/// found otherwise.
pub fn delete_recipe_outcome(rows_affected: u64, exists: Option<bool>) -> (r: Result<(), AppError>)
    ensures
        rows_affected > 0 ==> r is Ok,
        rows_affected == 0 && exists == Some(true) ==> (r matches Err(AppError::Forbidden)),
        rows_affected == 0 && exists != Some(true) ==> (r matches Err(AppError::NotFound(m)) && m@
            == "Recipe not found"@),
{
    if rows_affected > 0 {
        Ok(())
    } else if exists == Some(true) {
        Err(AppError::Forbidden)
    } else {
        Err(AppError::not_found("Recipe not found"))
    }
}

} // verus!
