//! Per-user recipe categories.

use vstd::prelude::*;

verus! {

/// A category of the authenticated user, with its ordered recipe ids.
#[derive(Debug, Clone)]
pub struct Category {
    pub id: i32,
    pub user: i32,
    pub name: String,
    pub recipes: Vec<i32>,
    pub order: i32,
    pub color: String,
    pub color_light: Option<String>,
    pub color_dark: Option<String>,
}

/// Payload to create a category or to update its metadata.
#[derive(Debug, Clone)]
pub struct CreateCategory {
    pub name: String,
    pub color: String,
    pub color_light: Option<String>,
    pub color_dark: Option<String>,
}

/// Payload that replaces the ordered recipe list of a category.
#[derive(Debug, Clone)]
pub struct UpdateCategoryRecipes {
    pub recipe_ids: Vec<i32>,
}

/// Payload that reorders all categories of a user.
#[derive(Debug, Clone)]
pub struct ReorderCategories {
    pub category_ids: Vec<i32>,
}

/// One category and the sort position it was given.
#[derive(Debug, Clone, Copy, PartialEq, Eq, Structural)]
pub struct CategoryOrderPair {
    pub id: i32,
    pub order: i32,
}

/// The positions assigned by a reorder request.
#[derive(Debug, Clone)]
pub struct CategoryOrderResponse {
    pub data: Vec<CategoryOrderPair>,
}

/// The categories of a user, in display order.
#[derive(Debug, Clone)]
pub struct CategoryListResponse {
    pub data: Vec<Category>,
}

} // verus!
