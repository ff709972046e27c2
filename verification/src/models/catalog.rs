//! Catalog data models (tags, ingredients).

use vstd::prelude::*;

verus! {

/// A tag; its id is its display name.
#[derive(Debug, Clone)]
pub struct Tag {
    pub id: String,
    pub svg: Option<String>,
}

/// An entry of the global ingredient catalog.
#[derive(Debug, Clone)]
pub struct Ingredient {
    pub id: i32,
    pub name: String,
}

/// A flat, unpaginated catalog listing.
#[derive(Debug, Clone)]
pub struct CatalogResponse<T> {
    pub data: Vec<T>,
}

} // verus!
