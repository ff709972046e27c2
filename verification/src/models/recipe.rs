//! Recipe models: full recipes, list previews, write payloads and search queries.

use vstd::prelude::*;

verus! {

/// One user's rating of a recipe.
#[derive(Debug, Clone, Copy)]
pub struct UserRating {
    pub user: i32,
    pub rating: i32,
}

/// The expanded catalog reference of a recipe ingredient.
#[derive(Debug, Clone)]
pub struct IngredientRef {
    pub id: i32,
    pub name: String,
}

/// An ingredient line of a recipe section, as returned to clients.
#[derive(Debug, Clone)]
pub struct RecipeIngredient {
    pub id: i32,
    pub ingredient: Option<IngredientRef>,
    pub text: Option<String>,
    pub amount: Option<String>,
    pub amount_prefix: Option<String>,
    pub unit: Option<String>,
}

/// A section of a recipe: an optional heading, ingredients and steps.
#[derive(Debug, Clone)]
pub struct Section {
    pub id: i32,
    pub name: Option<String>,
    pub ingredients: Vec<RecipeIngredient>,
    pub steps: Vec<String>,
}

/// A full recipe.
#[derive(Debug, Clone)]
pub struct Recipe {
    pub id: i32,
    pub owner: i32,
    pub editors: Vec<i32>,
    pub viewers: Vec<i32>,
    pub name: String,
    pub tags: Vec<String>,
    pub source: Option<String>,
    pub rating: Vec<UserRating>,
    pub time: Option<String>,
    pub work_minutes: Option<i32>,
    pub overall_minutes: Option<i32>,
    pub size_number: Option<i32>,
    pub size_text: Option<String>,
    pub notes: Vec<String>,
    pub main_image: Option<i32>,
    pub images: Vec<i32>,
    pub sections: Vec<Section>,
    pub created_at: Option<String>,
    pub updated_at: Option<String>,
}

/// The list-view subset of a recipe (no notes, images or sections).
#[derive(Debug, Clone)]
pub struct RecipePreview {
    pub id: i32,
    pub owner: i32,
    pub editors: Vec<i32>,
    pub viewers: Vec<i32>,
    pub name: String,
    pub tags: Vec<String>,
    pub source: Option<String>,
    pub rating: Vec<UserRating>,
    pub time: Option<String>,
    pub work_minutes: Option<i32>,
    pub overall_minutes: Option<i32>,
    pub size_number: Option<i32>,
    pub size_text: Option<String>,
    pub main_image: Option<i32>,
    pub created_at: Option<String>,
    pub updated_at: Option<String>,
}

/// The preview of a recipe: every preview field taken from the recipe.
pub open spec fn preview_of(recipe: Recipe) -> RecipePreview {
    RecipePreview {
        id: recipe.id,
        owner: recipe.owner,
        editors: recipe.editors,
        viewers: recipe.viewers,
        name: recipe.name,
        tags: recipe.tags,
        source: recipe.source,
        rating: recipe.rating,
        time: recipe.time,
        work_minutes: recipe.work_minutes,
        overall_minutes: recipe.overall_minutes,
        size_number: recipe.size_number,
        size_text: recipe.size_text,
        main_image: recipe.main_image,
        created_at: recipe.created_at,
        updated_at: recipe.updated_at,
    }
}

impl From<Recipe> for RecipePreview {
    fn from(recipe: Recipe) -> (p: RecipePreview) {
        RecipePreview {
            id: recipe.id,
            owner: recipe.owner,
            editors: recipe.editors,
            viewers: recipe.viewers,
            name: recipe.name,
            tags: recipe.tags,
            source: recipe.source,
            rating: recipe.rating,
            time: recipe.time,
            work_minutes: recipe.work_minutes,
            overall_minutes: recipe.overall_minutes,
            size_number: recipe.size_number,
            size_text: recipe.size_text,
            main_image: recipe.main_image,
            created_at: recipe.created_at,
            updated_at: recipe.updated_at,
        }
    }
}

impl vstd::std_specs::convert::FromSpecImpl<Recipe> for RecipePreview {
    open spec fn obeys_from_spec() -> bool {
        true
    }

    open spec fn from_spec(v: Recipe) -> RecipePreview {
        preview_of(v)
    }
}

/// An ingredient line as written by clients: the catalog reference is a bare id.
#[derive(Debug, Clone)]
pub struct CreateRecipeIngredient {
    pub ingredient: Option<i32>,
    pub text: Option<String>,
    pub amount: Option<String>,
    pub amount_prefix: Option<String>,
    pub unit: Option<String>,
}

/// An ingredient line says what it is: it names a catalog ingredient, or it
/// carries the free text of the line.
pub open spec fn ingredient_is_valid(ing: CreateRecipeIngredient) -> bool {
    ing.ingredient is Some || ing.text is Some
}

impl CreateRecipeIngredient {
    pub fn is_valid(&self) -> (b: bool)
        ensures
            b == ingredient_is_valid(*self),
    {
        self.ingredient.is_some() || self.text.is_some()
    }
}

/// A section as written by clients.
#[derive(Debug, Clone)]
pub struct CreateSection {
    pub name: Option<String>,
    pub ingredients: Vec<CreateRecipeIngredient>,
    pub steps: Vec<String>,
}

/// The payload that creates or fully replaces a recipe.
#[derive(Debug, Clone)]
pub struct CreateRecipe {
    pub name: String,
    pub tags: Vec<String>,
    pub source: Option<String>,
    pub time: Option<String>,
    pub work_minutes: Option<i32>,
    pub overall_minutes: Option<i32>,
    pub size_number: Option<i32>,
    pub size_text: Option<String>,
    pub notes: Vec<String>,
    pub main_image: Option<i32>,
    pub images: Vec<i32>,
    pub sections: Vec<CreateSection>,
}

/// Sort direction of a recipe search.
#[derive(Debug, Clone, Copy, PartialEq, Eq, Structural)]
pub enum Order {
    Asc,
    Desc,
}

/// The role a user holds on a recipe, used as a search filter.
#[derive(Debug, Clone, Copy, PartialEq, Eq, Structural)]
pub enum RecipeAccessRights {
    Owner,
    Editor,
    Viewer,
}

/// How widely a recipe is shared, used as a search filter.
#[derive(Debug, Clone, Copy, PartialEq, Eq, Structural)]
pub enum RecipeShareState {
    Private,
    Shared,
    Collaborative,
}

/// Filters of a recipe search; every given filter must hold.
#[derive(Debug, Clone)]
pub struct RecipeFilters {
    pub categories: Option<Vec<i64>>,
    pub tags: Option<Vec<String>>,
    pub ingredients: Option<Vec<i64>>,
    pub max_work_time: Option<i32>,
    pub access_rights: Option<Vec<RecipeAccessRights>>,
    pub share_states: Option<Vec<RecipeShareState>>,
}

/// Sort key and direction of a recipe search.
#[derive(Debug, Clone)]
pub struct RecipeSort {
    pub field: String,
    pub order: Order,
}

/// A recipe search: optional filters and optional sort.
#[derive(Debug, Clone)]
pub struct RecipeSearchQuery {
    pub filters: Option<RecipeFilters>,
    pub sort: Option<RecipeSort>,
}

impl Default for RecipeSearchQuery {
    fn default() -> (q: RecipeSearchQuery)
        ensures
            q.filters is None,
            q.sort is None,
    {
        RecipeSearchQuery { filters: None, sort: None }
    }
}

} // verus!
