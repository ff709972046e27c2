//! Image upload, retrieval and deletion.

use crate::error::AppError;
use crate::services::storage::{get_image_path, image_path, is_image_key};
use vstd::prelude::*;
use vstd::string::*;
use vstd::utf8::*;

verus! {

/// The image formats recognised by their leading bytes.
#[derive(Debug, Clone, Copy, PartialEq, Eq, Structural)]
pub enum ImageFormat {
    Png,
    Jpeg,
    Webp,
    Gif,
    Unknown,
}

pub open spec fn png_signature() -> Seq<u8> {
    seq![0x89u8, 0x50u8, 0x4Eu8, 0x47u8, 0x0Du8, 0x0Au8, 0x1Au8, 0x0Au8]
}

pub open spec fn jpeg_signature() -> Seq<u8> {
    seq![0xFFu8, 0xD8u8, 0xFFu8]
}

/// `RIFF`
pub open spec fn riff_signature() -> Seq<u8> {
    seq![0x52u8, 0x49u8, 0x46u8, 0x46u8]
}

/// `WEBP`
pub open spec fn webp_tag() -> Seq<u8> {
    seq![0x57u8, 0x45u8, 0x42u8, 0x50u8]
}

/// `GIF8`
pub open spec fn gif_signature() -> Seq<u8> {
    seq![0x47u8, 0x49u8, 0x46u8, 0x38u8]
}

/// The format of an image, told by its magic bytes (checked in this order).
pub open spec fn sniff_format(b: Seq<u8>) -> ImageFormat {
    if png_signature().is_prefix_of(b) {
        ImageFormat::Png
    } else if jpeg_signature().is_prefix_of(b) {
        ImageFormat::Jpeg
    } else if riff_signature().is_prefix_of(b) && b.len() > 11 && b.subrange(8, 12) == webp_tag() {
        ImageFormat::Webp
    } else if gif_signature().is_prefix_of(b) {
        ImageFormat::Gif
    } else {
        ImageFormat::Unknown
    }
}

/// The MIME type served for each format.
pub open spec fn mime_type(f: ImageFormat) -> Seq<char> {
    match f {
        ImageFormat::Png => "image/png"@,
        ImageFormat::Jpeg => "image/jpeg"@,
        ImageFormat::Webp => "image/webp"@,
        ImageFormat::Gif => "image/gif"@,
        ImageFormat::Unknown => "application/octet-stream"@,
    }
}

/// Uploads must be JPEG, PNG or WEBP.
pub open spec fn is_accepted_format(f: ImageFormat) -> bool {
    f == ImageFormat::Png || f == ImageFormat::Jpeg || f == ImageFormat::Webp
}

/// Whether `b[off..off + p.len()] == p`.
fn bytes_match_at(b: &[u8], off: usize, p: &[u8]) -> (r: bool)
    requires
        off + p@.len() <= b@.len(),
    ensures
        r == (b@.subrange(off as int, off + p@.len()) == p@),
{
    let n = p.len();
    let mut i: usize = 0;
    while i < n
        invariant
            n == p@.len(),
            off + n <= b.len(),
            i <= n,
            forall|j: int| 0 <= j < i ==> b@[off + j] == p@[j],
        decreases n - i,
    {
        if b[off + i] != p[i] {
            assert(b@.subrange(off as int, off + n)[i as int] != p@[i as int]);
            return false;
        }
        i = i + 1;
    }
    assert(b@.subrange(off as int, off + n) =~= p@);
    true
}

/// Whether `b` starts with `p`.
fn bytes_start_with(b: &[u8], p: &[u8]) -> (r: bool)
    ensures
        r == p@.is_prefix_of(b@),
{
    if p.len() > b.len() {
        return false;
    }
    let r = bytes_match_at(b, 0, p);
    assert(r == p@.is_prefix_of(b@)) by {
        if r {
            assert forall|i: int| 0 <= i < p@.len() implies p@[i] == b@[i] by {
                assert(b@.subrange(0, p@.len() as int)[i] == b@[i]);
            }
        } else {
            if p@.is_prefix_of(b@) {
                assert(b@.subrange(0, p@.len() as int) =~= p@);
            }
        }
    }
    r
}

/// The format of `bytes`, by its magic bytes.
pub fn detect_format(bytes: &[u8]) -> (f: ImageFormat)
    ensures
        f == sniff_format(bytes@),
{
    let png: [u8; 8] = [0x89, 0x50, 0x4E, 0x47, 0x0D, 0x0A, 0x1A, 0x0A];
    let jpeg: [u8; 3] = [0xFF, 0xD8, 0xFF];
    let riff: [u8; 4] = [0x52, 0x49, 0x46, 0x46];
    let webp: [u8; 4] = [0x57, 0x45, 0x42, 0x50];
    let gif: [u8; 4] = [0x47, 0x49, 0x46, 0x38];
    assert(png@ =~= png_signature());
    assert(jpeg@ =~= jpeg_signature());
    assert(riff@ =~= riff_signature());
    assert(webp@ =~= webp_tag());
    assert(gif@ =~= gif_signature());
    if bytes_start_with(bytes, png.as_slice()) {
        ImageFormat::Png
    } else if bytes_start_with(bytes, jpeg.as_slice()) {
        ImageFormat::Jpeg
    } else if bytes_start_with(bytes, riff.as_slice()) && bytes.len() > 11 && bytes_match_at(
        bytes,
        8,
        webp.as_slice(),
    ) {
        ImageFormat::Webp
    } else if bytes_start_with(bytes, gif.as_slice()) {
        ImageFormat::Gif
    } else {
        ImageFormat::Unknown
    }
}

/// The MIME type of `bytes`: `image/png`, `image/jpeg`, `image/webp`,
/// `image/gif`, or `application/octet-stream` when the format is not recognised.
pub fn infer_content_type(bytes: &[u8]) -> (ct: &'static str)
    ensures
        ct@ == mime_type(sniff_format(bytes@)),
{
    match detect_format(bytes) {
        ImageFormat::Png => "image/png",
        ImageFormat::Jpeg => "image/jpeg",
        ImageFormat::Webp => "image/webp",
        ImageFormat::Gif => "image/gif",
        ImageFormat::Unknown => "application/octet-stream",
    }
}

/// What an image upload body is checked against: it is not empty and it is
/// a JPEG, PNG or WEBP. On success, the content type of the body.
pub open spec fn upload_checked(
    bytes: Seq<u8>,
    empty_msg: Seq<char>,
    r: Result<&'static str, AppError>,
) -> bool {
    if bytes.len() == 0 {
        r matches Err(AppError::Unprocessable(m)) && m@ == empty_msg
    } else if !is_accepted_format(sniff_format(bytes)) {
        r matches Err(AppError::Unprocessable(m)) && m@
            == "Invalid image format. Only JPEG, PNG, and WEBP are allowed"@
    } else {
        r matches Ok(ct) && ct@ == mime_type(sniff_format(bytes))
    }
}

fn check_upload(bytes: &[u8], empty_msg: &str) -> (r: Result<&'static str, AppError>)
    ensures
        upload_checked(bytes@, empty_msg@, r),
{
    if bytes.len() == 0 {
        return Err(AppError::unprocessable(empty_msg));
    }
    let f = detect_format(bytes);
    if !(f == ImageFormat::Png || f == ImageFormat::Jpeg || f == ImageFormat::Webp) {
        return Err(
            AppError::unprocessable("Invalid image format. Only JPEG, PNG, and WEBP are allowed"),
        );
    }
    Ok(infer_content_type(bytes))
}

/// Checks the body of `POST /images`.
pub fn check_image_upload(bytes: &[u8]) -> (r: Result<&'static str, AppError>)
    ensures
        upload_checked(bytes@, "Empty image body"@, r),
{
    check_upload(bytes, "Empty image body")
}

/// Checks the body of `PUT /users/me/profile-picture`.
pub fn check_profile_picture_upload(bytes: &[u8]) -> (r: Result<&'static str, AppError>)
    ensures
        upload_checked(bytes@, "Empty body"@, r),
{
    check_upload(bytes, "Empty body")
}

/// The entity tag of an image: its hash in double quotes.
pub open spec fn etag_of(hash: Seq<char>) -> Seq<char> {
    seq!['"'] + hash + seq!['"']
}

/// `format!("\"{}\"", hash)`.
pub fn image_etag(hash: &str) -> (etag: String)
    ensures
        etag@ == etag_of(hash@),
{
    proof {
        reveal_strlit("\"");
    }
    let e = String::from_str("\"").concat(hash).concat("\"");
    assert(e@ =~= etag_of(hash@));
    e
}

/// The cache policy of images: content-addressed, hence immutable.
pub const IMAGE_CACHE_CONTROL: &'static str = "public, max-age=31536000, immutable";

/// How `GET /images/{hash}` goes on once the request is read.
pub enum ImageFetch {
    /// The client's cached copy is current: answer `304 Not Modified`.
    NotModified,
    /// Read `path` and answer it with entity tag `etag`.
    Read { path: String, etag: String },
}

/// The client already holds the current version: its `If-None-Match` is the entity tag.
pub open spec fn is_fresh(if_none_match: Option<&str>, hash: Seq<char>) -> bool {
    if_none_match matches Some(t) && t@ == etag_of(hash)
}

/// Whether the client's `If-None-Match` is the entity tag of `hash`.
pub fn image_is_fresh(hash: &str, if_none_match: Option<&str>) -> (b: bool)
    ensures
        b == is_fresh(if_none_match, hash@),
{
    match if_none_match {
        Some(t) => {
            let etag = image_etag(hash);
            crate::text::str_eq(t, etag.as_str())
        },
        None => false,
    }
}

/// Decides `GET /images/{hash}` from the hash and the `If-None-Match` header
/// (`None` when absent or not visible ASCII). A matching entity tag answers
/// `304` before anything else; a hash shorter than four bytes is not found.
pub fn plan_image_fetch(storage_dir: &str, hash: &str, if_none_match: Option<&str>) -> (r: Result<
    ImageFetch,
    AppError,
>)
    requires
        !is_fresh(if_none_match, hash@) && encode_utf8(hash@).len() >= 4 ==> is_image_key(hash@),
    ensures
        is_fresh(if_none_match, hash@) ==> r matches Ok(ImageFetch::NotModified),
        !is_fresh(if_none_match, hash@) && encode_utf8(hash@).len() < 4 ==> (r matches Err(
            AppError::NotFound(m),
        ) && m@ == "Image not found"@),
        !is_fresh(if_none_match, hash@) && encode_utf8(hash@).len() >= 4 ==> (r matches Ok(
            ImageFetch::Read { path, etag },
        ) && path@ == image_path(storage_dir@, hash@) && etag@ == etag_of(hash@)),
{
    if image_is_fresh(hash, if_none_match) {
        return Ok(ImageFetch::NotModified);
    }
    if hash.as_bytes().len() < 4 {
        return Err(AppError::not_found("Image not found"));
    }
    let etag = image_etag(hash);
    let path = get_image_path(storage_dir, hash);
    Ok(ImageFetch::Read { path, etag })
}

/// The answer when a stored image cannot be read.
pub fn image_read_failed() -> (e: AppError)
    ensures
        e matches AppError::NotFound(m) && m@ == "Image not found"@,
{
    AppError::not_found("Image not found")
}

/// `DELETE /images/{hash}`: not found when no record was deleted.
pub fn image_delete_result(rows_affected: u64) -> (r: Result<(), AppError>)
    ensures
        rows_affected == 0 ==> (r matches Err(AppError::NotFound(m)) && m@ == "Image not found"@),
        rows_affected > 0 ==> r is Ok,
{
    if rows_affected == 0 {
        Err(AppError::not_found("Image not found"))
    } else {
        Ok(())
    }
}


/// Uploads are accepted exactly in the three allowed formats, told by their
/// leading bytes: a PNG, JPEG or WEBP body is accepted and served as
/// `image/png`, `image/jpeg` or `image/webp`; a GIF body is refused as an
/// invalid format, and an empty body with the empty-body message.
pub proof fn lemma_upload_accepts_png_jpeg_webp(bytes: Seq<u8>, empty_msg: Seq<char>, r: Result<&'static str, AppError>)
    requires
        upload_checked(bytes, empty_msg, r),
    ensures
        bytes.len() >= 8 && bytes[0] == 0x89 && bytes[1] == 0x50 && bytes[2] == 0x4E && bytes[3] == 0x47
            && bytes[4] == 0x0D && bytes[5] == 0x0A && bytes[6] == 0x1A && bytes[7] == 0x0A ==> (r matches Ok(
            ct,
        ) && ct@ == "image/png"@),
        bytes.len() >= 3 && bytes[0] == 0xFF && bytes[1] == 0xD8 && bytes[2] == 0xFF ==> (r matches Ok(
            ct,
        ) && ct@ == "image/jpeg"@),
        bytes.len() >= 12 && bytes[0] == 0x52 && bytes[1] == 0x49 && bytes[2] == 0x46 && bytes[3] == 0x46
            && bytes[8] == 0x57 && bytes[9] == 0x45 && bytes[10] == 0x42 && bytes[11] == 0x50 ==> (r matches Ok(
            ct,
        ) && ct@ == "image/webp"@),
        bytes.len() >= 4 && bytes[0] == 0x47 && bytes[1] == 0x49 && bytes[2] == 0x46 && bytes[3] == 0x38
            ==> (r matches Err(AppError::Unprocessable(m)) && m@
            == "Invalid image format. Only JPEG, PNG, and WEBP are allowed"@),
        bytes.len() == 0 ==> (r matches Err(AppError::Unprocessable(m)) && m@ == empty_msg),
{
    if bytes.len() >= 8 && bytes[0] == 0x89 && bytes[1] == 0x50 && bytes[2] == 0x4E && bytes[3] == 0x47
        && bytes[4] == 0x0D && bytes[5] == 0x0A && bytes[6] == 0x1A && bytes[7] == 0x0A {
        assert(png_signature().is_prefix_of(bytes));
    }
    if bytes.len() >= 3 && bytes[0] == 0xFF && bytes[1] == 0xD8 && bytes[2] == 0xFF {
        assert(!png_signature().is_prefix_of(bytes));
        assert(jpeg_signature().is_prefix_of(bytes));
    }
    if bytes.len() >= 12 && bytes[0] == 0x52 && bytes[1] == 0x49 && bytes[2] == 0x46 && bytes[3] == 0x46
        && bytes[8] == 0x57 && bytes[9] == 0x45 && bytes[10] == 0x42 && bytes[11] == 0x50 {
        assert(!png_signature().is_prefix_of(bytes));
        assert(!jpeg_signature().is_prefix_of(bytes));
        assert(riff_signature().is_prefix_of(bytes));
        assert(bytes.subrange(8, 12) =~= webp_tag());
    }
    if bytes.len() >= 4 && bytes[0] == 0x47 && bytes[1] == 0x49 && bytes[2] == 0x46 && bytes[3] == 0x38 {
        assert(!png_signature().is_prefix_of(bytes));
        assert(!jpeg_signature().is_prefix_of(bytes));
        assert(!riff_signature().is_prefix_of(bytes));
        assert(gif_signature().is_prefix_of(bytes));
    }
}


/// The entity tag of an image is its key in double quotes.
pub proof fn lemma_etag_quotes_key(hash: Seq<char>)
    ensures
        etag_of(hash).len() == hash.len() + 2,
        etag_of(hash)[0] == '"',
        etag_of(hash)[hash.len() as int + 1] == '"',
        etag_of(hash).subrange(1, hash.len() as int + 1) == hash,
{
    assert(etag_of(hash).subrange(1, hash.len() as int + 1) =~= hash);
}

} // verus!
