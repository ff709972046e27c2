//! Tags and the ingredient catalog.

use crate::error::AppError;
use crate::models::catalog::Ingredient;
use crate::text::{occurs_in, str_contains};
use vstd::prelude::*;
use vstd::string::*;
use vstd::utf8::*;

verus! {

broadcast use {vstd::string::group_string_axioms, vstd::utf8::group_utf8_lib};

/// Calls `std::str::from_utf8`: it succeeds exactly on valid UTF-8, and then
/// the text's bytes are the given bytes.
#[verifier::external_body]
fn utf8_text(bytes: &[u8]) -> (t: Option<&str>)
    ensures
        t is Some <==> valid_utf8(bytes@),
        t matches Some(s) ==> s.spec_bytes() == bytes@,
{
    std::str::from_utf8(bytes).ok()
}

/// How many leading bytes of an icon upload are inspected.
pub const SVG_SNIFF_LEN: usize = 1024;

/// The leading bytes of an upload that are inspected for an SVG root.
pub open spec fn sniffed_prefix(bytes: Seq<u8>) -> Seq<u8> {
    if bytes.len() < SVG_SNIFF_LEN {
        bytes
    } else {
        bytes.subrange(0, SVG_SNIFF_LEN as int)
    }
}

/// An icon upload looks like SVG: its first 1024 bytes (or fewer) are
/// valid UTF-8 and contain `<svg`.
pub open spec fn looks_like_svg(bytes: Seq<u8>) -> bool {
    let p = sniffed_prefix(bytes);
    valid_utf8(p) && occurs_in("<svg"@, decode_utf8(p))
}

/// Checks the body of `PUT /tags/{id}/icon`.
pub fn check_tag_icon_upload(bytes: &[u8]) -> (r: Result<(), AppError>)
    ensures
        bytes@.len() == 0 ==> (r matches Err(AppError::Unprocessable(m)) && m@ == "Empty body"@),
        bytes@.len() > 0 && !looks_like_svg(bytes@) ==> (r matches Err(
            AppError::Unprocessable(m),
        ) && m@ == "Invalid SVG format"@),
        bytes@.len() > 0 && looks_like_svg(bytes@) ==> r is Ok,
{
    if bytes.len() == 0 {
        return Err(AppError::unprocessable("Empty body"));
    }
    let n = if bytes.len() < SVG_SNIFF_LEN {
        bytes.len()
    } else {
        SVG_SNIFF_LEN
    };
    let prefix = &bytes[0..n];
    assert(prefix@ =~= sniffed_prefix(bytes@));
    match utf8_text(prefix) {
        Some(s) => {
            assert(s@ == decode_utf8(prefix@));
            if str_contains(s, "<svg") {
                Ok(())
            } else {
                Err(AppError::unprocessable("Invalid SVG format"))
            }
        },
        None => Err(AppError::unprocessable("Invalid SVG format")),
    }
}

/// `GET /tags/{id}/icon`: the icon's hash, given the stored tag (`None` when
/// there is no such tag) and its icon (`None` when it has none).
pub fn tag_icon_hash(tag: Option<Option<String>>) -> (r: Result<String, AppError>)
    ensures
        tag is None ==> (r matches Err(AppError::NotFound(m)) && m@ == "Tag not found"@),
        tag matches Some(None) ==> (r matches Err(AppError::NotFound(m)) && m@
            == "Tag has no icon"@),
        tag matches Some(Some(h)) ==> r == Ok::<String, AppError>(h),
{
    match tag {
        None => Err(AppError::not_found("Tag not found")),
        Some(None) => Err(AppError::not_found("Tag has no icon")),
        Some(Some(h)) => Ok(h),
    }
}

/// The answer when a tag's icon file cannot be read.
pub fn tag_icon_read_failed() -> (e: AppError)
    ensures
        e matches AppError::NotFound(m) && m@ == "Icon file not found"@,
{
    AppError::not_found("Icon file not found")
}

/// Icons are served as SVG.
pub const TAG_ICON_CONTENT_TYPE: &'static str = "image/svg+xml";

/// Icons may be cached for a day.
pub const TAG_ICON_CACHE_CONTROL: &'static str = "public, max-age=86400";

/// `PUT /tags/{id}/icon`: not found when no tag was updated.
pub fn tag_update_result(rows_affected: u64) -> (r: Result<(), AppError>)
    ensures
        rows_affected == 0 ==> (r matches Err(AppError::NotFound(m)) && m@ == "Tag not found"@),
        rows_affected > 0 ==> r is Ok,
{
    if rows_affected == 0 {
        Err(AppError::not_found("Tag not found"))
    } else {
        Ok(())
    }
}

/// A catalog ingredient from its stored row (the id is narrowed to 32 bits).
pub fn ingredient_from_row(id: i64, name: String) -> (ing: Ingredient)
    ensures
        ing.id == id as i32,
        ing.name == name,
{
    Ingredient { id: id as i32, name }
}

} // verus!
