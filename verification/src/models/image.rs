//! Stored image records.

use vstd::prelude::*;

verus! {

/// An uploaded image, addressed by the hash of its content.
#[derive(Debug, Clone)]
pub struct Image {
    pub id: i64,
    pub hash: String,
    pub name: Option<String>,
}

} // verus!
