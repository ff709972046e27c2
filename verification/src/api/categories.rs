//! Per-user categories: creation, update, recipe assignment and ordering.

use crate::api::recipes::narrow_ids;
use crate::api::recipes::narrow_id_list;
use crate::error::AppError;
use crate::models::category::{Category, CategoryOrderPair, CategoryOrderResponse, CreateCategory};
use vstd::prelude::*;
use vstd::string::*;

verus! {

/// A category needs a name and a color.
pub fn validate_category(payload: &CreateCategory) -> (r: Result<(), AppError>)
    ensures
        payload.name@.len() == 0 ==> (r matches Err(AppError::Unprocessable(m)) && m@
            == "Name cannot be empty"@),
        payload.name@.len() > 0 && payload.color@.len() == 0 ==> (r matches Err(
            AppError::Unprocessable(m),
        ) && m@ == "Color cannot be empty"@),
        payload.name@.len() > 0 && payload.color@.len() > 0 ==> r is Ok,
{
    if payload.name.as_str().is_empty() {
        return Err(AppError::unprocessable("Name cannot be empty"));
    }
    if payload.color.as_str().is_empty() {
        return Err(AppError::unprocessable("Color cannot be empty"));
    }
    Ok(())
}

/// A new category goes after the user's last one: one past the highest sort
/// position, or 0 for the first category.
pub fn next_sort_order(max_order: Option<i32>) -> (order: i32)
    requires
        max_order != Some(i32::MAX),
    ensures
        max_order is None ==> order == 0,
        max_order matches Some(m) ==> order == m + 1,
{
    match max_order {
        Some(m) => m + 1,
        None => 0,
    }
}

/// The category answered after creating it: the stored id and position
/// (0 when the position is missing), no recipes yet.
pub fn created_category(id: i64, user_id: i32, sort_order: Option<i32>, payload: CreateCategory) -> (c: Category)
    ensures
        c.id == id as i32,
        c.user == user_id,
        c.name == payload.name,
        c.recipes@.len() == 0,
        c.order == match sort_order {
            Some(o) => o,
            None => 0,
        },
        c.color == payload.color,
        c.color_light == payload.color_light,
        c.color_dark == payload.color_dark,
{
    Category {
        id: id as i32,
        user: user_id,
        name: payload.name,
        recipes: Vec::new(),
        order: match sort_order {
            Some(o) => o,
            None => 0,
        },
        color: payload.color,
        color_light: payload.color_light,
        color_dark: payload.color_dark,
    }
}

/// A stored category with its recipe ids in position order.
pub struct CategoryRow {
    pub id: i64,
    pub user_id: i64,
    pub name: String,
    pub sort_order: Option<i32>,
    pub color: String,
    pub color_light: Option<String>,
    pub color_dark: Option<String>,
    pub recipes: Vec<i64>,
}

/// The category answered for a stored row: ids narrowed to 32 bits, a
/// missing position read as 0.
pub fn category_from_row(row: CategoryRow) -> (c: Category)
    ensures
        c.id == row.id as i32,
        c.user == row.user_id as i32,
        c.name == row.name,
        c.recipes@ == narrow_ids(row.recipes@),
        c.order == match row.sort_order {
            Some(o) => o,
            None => 0,
        },
        c.color == row.color,
        c.color_light == row.color_light,
        c.color_dark == row.color_dark,
{
    Category {
        id: row.id as i32,
        user: row.user_id as i32,
        name: row.name,
        recipes: narrow_id_list(row.recipes),
        order: match row.sort_order {
            Some(o) => o,
            None => 0,
        },
        color: row.color,
        color_light: row.color_light,
        color_dark: row.color_dark,
    }
}

/// Updating, deleting or assigning recipes to a category needs a category of
/// the user: not found otherwise.
pub fn require_category(found: bool) -> (r: Result<(), AppError>)
    ensures
        !found ==> (r matches Err(AppError::NotFound(m)) && m@ == "Category not found"@),
        found ==> r is Ok,
{
    if found {
        Ok(())
    } else {
        Err(AppError::not_found("Category not found"))
    }
}

/// All assigned recipes must be accessible to the user: the number of
/// distinct accessible recipes among the ids (`None` read as 0) must equal
/// the number of ids given.
pub fn check_recipes_accessible(requested: usize, accessible: Option<i64>) -> (r: Result<(), AppError>)
    ensures
        (match accessible {
            Some(c) => c,
            None => 0,
        }) == requested as i64 ==> r is Ok,
        (match accessible {
            Some(c) => c,
            None => 0,
        }) != requested as i64 ==> (r matches Err(AppError::Unprocessable(m)) && m@
            == "One or more recipes not accessible"@),
{
    let count = match accessible {
        Some(c) => c,
        None => 0,
    };
    if count != requested as i64 {
        Err(AppError::unprocessable("One or more recipes not accessible"))
    } else {
        Ok(())
    }
}

/// The rows that record a category's recipes: each id with its position.
pub fn category_recipe_positions(recipe_ids: &Vec<i32>) -> (rows: Vec<(i64, i32)>)
    ensures
        rows@.len() == recipe_ids@.len(),
        forall|i: int| 0 <= i < rows@.len() ==> #[trigger] rows@[i] == (recipe_ids@[i] as i64, i as i32),
{
    let n = recipe_ids.len();
    let mut rows: Vec<(i64, i32)> = Vec::new();
    let mut i: usize = 0;
    while i < n
        invariant
            n == recipe_ids@.len(),
            i <= n,
            rows@.len() == i,
            forall|k: int| 0 <= k < i ==> #[trigger] rows@[k] == (recipe_ids@[k] as i64, k as i32),
        decreases n - i,
    {
        rows.push((recipe_ids[i] as i64, i as i32));
        i = i + 1;
    }
    rows
}

/// What replacing a category's recipes does once the category is known to
/// be the user's.
pub enum CategoryRecipesPlan {
    /// No recipes given: clear the category, with no access check.
    Clear,
    /// Check that the user may view every recipe (the ids of `rows`), then
    /// replace the category's recipes by `rows` (id, position).
    CheckThenSet(Vec<(i64, i32)>),
}

/// Decides how a category's recipes are replaced by `recipe_ids`: an empty
/// list clears it; otherwise every recipe is checked for access and stored
/// with its position in the list.
pub fn plan_category_recipes(recipe_ids: &Vec<i32>) -> (p: CategoryRecipesPlan)
    ensures
        recipe_ids@.len() == 0 <==> p is Clear,
        p matches CategoryRecipesPlan::CheckThenSet(rows) ==> rows@.len() == recipe_ids@.len() && (
        forall|i: int| 0 <= i < rows@.len() ==> #[trigger] rows@[i] == (recipe_ids@[i] as i64, i as i32)),
{
    if recipe_ids.len() == 0 {
        CategoryRecipesPlan::Clear
    } else {
        CategoryRecipesPlan::CheckThenSet(category_recipe_positions(recipe_ids))
    }
}

/// Each category of a reorder request paired with its index in the request.
pub open spec fn order_assignments(ids: Seq<i32>) -> Seq<CategoryOrderPair> {
    Seq::new(ids.len(), |i: int| CategoryOrderPair { id: ids[i], order: i as i32 })
}

/// The position each category of a reorder request is given: its index in the request.
pub fn reorder_assignments(category_ids: &Vec<i32>) -> (pairs: Vec<CategoryOrderPair>)
    ensures
        pairs@ == order_assignments(category_ids@),
{
    let n = category_ids.len();
    let mut pairs: Vec<CategoryOrderPair> = Vec::new();
    let mut i: usize = 0;
    while i < n
        invariant
            n == category_ids@.len(),
            i <= n,
            pairs@.len() == i,
            forall|k: int| 0 <= k < i ==> #[trigger] pairs@[k] == (CategoryOrderPair { id: category_ids@[k], order: k as i32 }),
        decreases n - i,
    {
        pairs.push(CategoryOrderPair { id: category_ids[i], order: i as i32 });
        i = i + 1;
    }
    assert(pairs@ =~= order_assignments(category_ids@));
    pairs
}

/// The assignments that were applied, in request order.
pub open spec fn applied_pairs(pairs: Seq<CategoryOrderPair>, applied: Seq<bool>) -> Seq<CategoryOrderPair>
    decreases pairs.len(),
{
    if pairs.len() == 0 {
        seq![]
    } else {
        let rest = applied_pairs(pairs.drop_last(), applied.take(pairs.len() - 1));
        if applied[pairs.len() - 1] {
            rest.push(pairs.last())
        } else {
            rest
        }
    }
}

/// `PUT /categories/order` answers the assignments that changed a category
/// of the user (`applied[i]`: the update of `pairs[i]` affected a row).
pub fn reorder_response(pairs: Vec<CategoryOrderPair>, applied: &Vec<bool>) -> (r: CategoryOrderResponse)
    requires
        applied@.len() == pairs@.len(),
    ensures
        r.data@ == applied_pairs(pairs@, applied@),
{
    let n = pairs.len();
    let mut data: Vec<CategoryOrderPair> = Vec::new();
    let mut i: usize = 0;
    while i < n
        invariant
            n == pairs@.len(),
            n == applied@.len(),
            i <= n,
            data@ == applied_pairs(pairs@.take(i as int), applied@.take(i as int)),
        decreases n - i,
    {
        if applied[i] {
            data.push(pairs[i]);
        }
        assert(pairs@.take(i + 1).drop_last() =~= pairs@.take(i as int));
        assert(applied@.take(i + 1).take(i as int) =~= applied@.take(i as int));
        i = i + 1;
    }
    assert(pairs@.take(n as int) =~= pairs@);
    assert(applied@.take(n as int) =~= applied@);
    CategoryOrderResponse { data }
}

proof fn lemma_applied_pairs(pairs: Seq<CategoryOrderPair>, applied: Seq<bool>)
    requires
        applied.len() == pairs.len(),
        pairs.len() <= i32::MAX + 1,
        forall|i: int| 0 <= i < pairs.len() ==> (#[trigger] pairs[i]).order == i,
    ensures
        ({
            let d = applied_pairs(pairs, applied);
            &&& forall|k: int|
                0 <= k < d.len() ==> 0 <= (#[trigger] d[k]).order < pairs.len() && pairs[d[k].order as int]
                    == d[k] && applied[d[k].order as int]
            &&& forall|k1: int, k2: int| 0 <= k1 < k2 < d.len() ==> (#[trigger] d[k1]).order < (#[trigger] d[k2]).order
            &&& forall|i: int| 0 <= i < pairs.len() && #[trigger] applied[i] ==> d.contains(pairs[i])
        }),
    decreases pairs.len(),
{
    if pairs.len() > 0 {
        let n = pairs.len() - 1;
        let p0 = pairs.drop_last();
        let a0 = applied.take(n as int);
        lemma_applied_pairs(p0, a0);
        let rest = applied_pairs(p0, a0);
        let d = applied_pairs(pairs, applied);
        assert forall|i: int| 0 <= i < n && #[trigger] applied[i] implies rest.contains(pairs[i]) by {
            assert(a0[i]);
            assert(p0[i] == pairs[i]);
        }
        if applied[n as int] {
            assert(d == rest.push(pairs[n as int]));
            assert(d[d.len() - 1] == pairs[n as int]);
            assert forall|i: int| 0 <= i < pairs.len() && #[trigger] applied[i] implies d.contains(pairs[i]) by {
                if i < n {
                    let k = choose|k: int| 0 <= k < rest.len() && rest[k] == pairs[i];
                    assert(d[k] == pairs[i]);
                } else {
                    assert(d[d.len() - 1] == pairs[i]);
                }
            }
        } else {
            assert(d == rest);
        }
    }
}

/// Reordering categories: the answer lists exactly the categories whose
/// update applied, each with the index at which the request listed it, in
/// request order (so their positions strictly increase). Requests are
/// shorter than 2^31 categories, so indexes are positions unchanged.
pub proof fn lemma_reorder_answer(ids: Seq<i32>, applied: Seq<bool>)
    requires
        applied.len() == ids.len(),
        ids.len() <= i32::MAX + 1,
    ensures
        ({
            let d = applied_pairs(order_assignments(ids), applied);
            &&& forall|k: int|
                0 <= k < d.len() ==> 0 <= (#[trigger] d[k]).order < ids.len() && ids[d[k].order as int]
                    == d[k].id && applied[d[k].order as int]
            &&& forall|k1: int, k2: int| 0 <= k1 < k2 < d.len() ==> (#[trigger] d[k1]).order < (#[trigger] d[k2]).order
            &&& forall|i: int|
                0 <= i < ids.len() && #[trigger] applied[i] ==> d.contains(
                    CategoryOrderPair { id: ids[i], order: i as i32 },
                )
        }),
{
    let pairs = order_assignments(ids);
    assert forall|i: int| 0 <= i < pairs.len() implies (#[trigger] pairs[i]).order == i by {}
    lemma_applied_pairs(pairs, applied);
    let d = applied_pairs(pairs, applied);
    assert forall|k: int| 0 <= k < d.len() implies 0 <= (#[trigger] d[k]).order < ids.len() && ids[d[k].order as int] == d[k].id
        && applied[d[k].order as int] by {
        assert(pairs[d[k].order as int] == d[k]);
    }
    assert forall|i: int| 0 <= i < ids.len() && #[trigger] applied[i] implies d.contains(
        CategoryOrderPair { id: ids[i], order: i as i32 },
    ) by {
        assert(pairs[i] == CategoryOrderPair { id: ids[i], order: i as i32 });
    }
}

} // verus!
