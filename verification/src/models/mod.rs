//! Domain models exchanged with clients and read from storage.

pub mod catalog;
pub mod category;
pub mod image;
pub mod recipe;
pub mod user;
