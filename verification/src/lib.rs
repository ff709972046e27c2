//! Verified core of the Foodly recipe backend: request validation,
//! permission rules, content-addressed image storage, recipe search
//! planning and the mapping between stored rows and API models.

pub mod error;
pub mod models;
pub mod text;
pub mod services;
pub mod api;
pub mod access;
pub mod auth;
pub mod db;
pub mod store;
