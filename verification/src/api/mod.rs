//! The decisions of the REST handlers: what each request is answered with,
//! given what was read from storage.

pub mod catalogs;
pub mod categories;
pub mod images;
pub mod recipes;
pub mod search;
pub mod users;
