use foodly_backend::api::images::{
    check_image_upload, check_profile_picture_upload, detect_format, image_delete_result,
    image_etag, image_is_fresh, image_read_failed, infer_content_type, plan_image_fetch, ImageFetch, ImageFormat,
};
use foodly_backend::error::AppError;

const PNG: [u8; 9] = [0x89, b'P', b'N', b'G', 0x0D, 0x0A, 0x1A, 0x0A, 0x00];
const JPEG: [u8; 6] = [0xFF, 0xD8, 0xFF, 0x01, 0x02, 0x03];

fn unprocessable_message(r: Result<&'static str, AppError>) -> String {
    match r {
        Err(AppError::Unprocessable(m)) => m,
        _ => panic!("expected an unprocessable error"),
    }
}

#[test]
fn content_types_by_magic_bytes() {
    assert_eq!(infer_content_type(&PNG), "image/png");
    assert_eq!(infer_content_type(&JPEG), "image/jpeg");
    assert_eq!(infer_content_type(b"RIFF\x00\x00\x00\x00WEBPVP8 "), "image/webp");
    assert_eq!(infer_content_type(b"GIF89a"), "image/gif");
    assert_eq!(infer_content_type(b"hello"), "application/octet-stream");
    assert_eq!(infer_content_type(b""), "application/octet-stream");
}

#[test]
fn webp_needs_twelve_bytes() {
    // "RIFF....WEB" is too short to carry the WEBP tag
    assert_eq!(infer_content_type(b"RIFF\x00\x00\x00\x00WEB"), "application/octet-stream");
    assert_eq!(detect_format(b"RIFF\x00\x00\x00\x00WEBP"), ImageFormat::Webp);
    assert_eq!(detect_format(b"RIFF\x00\x00\x00\x00WEBX"), ImageFormat::Unknown);
}

#[test]
fn truncated_png_signature_is_unknown() {
    assert_eq!(detect_format(&PNG[..7]), ImageFormat::Unknown);
}

#[test]
fn image_upload_checks() {
    assert_eq!(check_image_upload(&JPEG).ok(), Some("image/jpeg"));
    assert_eq!(check_image_upload(&PNG).ok(), Some("image/png"));
    assert_eq!(unprocessable_message(check_image_upload(b"")), "Empty image body");
    assert_eq!(
        unprocessable_message(check_image_upload(b"GIF89a")),
        "Invalid image format. Only JPEG, PNG, and WEBP are allowed"
    );
    assert_eq!(
        unprocessable_message(check_image_upload(b"plain text")),
        "Invalid image format. Only JPEG, PNG, and WEBP are allowed"
    );
}

#[test]
fn profile_picture_upload_checks() {
    assert_eq!(check_profile_picture_upload(&JPEG).ok(), Some("image/jpeg"));
    assert_eq!(unprocessable_message(check_profile_picture_upload(b"")), "Empty body");
    assert_eq!(
        unprocessable_message(check_profile_picture_upload(b"GIF87a")),
        "Invalid image format. Only JPEG, PNG, and WEBP are allowed"
    );
}

#[test]
fn etag_quotes_the_hash() {
    assert_eq!(image_etag("abc"), "\"abc\"");
}

#[test]
fn fetch_with_matching_etag_is_not_modified() {
    let r = plan_image_fetch("/img", "abcdef", Some("\"abcdef\""));
    assert!(matches!(r, Ok(ImageFetch::NotModified)));
    // a matching tag answers 304 even for a short hash
    let r = plan_image_fetch("/img", "ab", Some("\"ab\""));
    assert!(matches!(r, Ok(ImageFetch::NotModified)));
}

#[test]
fn fetch_of_short_hash_is_not_found() {
    match plan_image_fetch("/img", "abc", None) {
        Err(AppError::NotFound(m)) => assert_eq!(m, "Image not found"),
        _ => panic!("expected not found"),
    }
}

#[test]
fn fetch_reads_the_image_file() {
    match plan_image_fetch("/img", "abcdef", Some("\"other\"")) {
        Ok(ImageFetch::Read { path, etag }) => {
            assert_eq!(path, "/img/ab/cd/abcdef");
            assert_eq!(etag, "\"abcdef\"");
        }
        _ => panic!("expected a read"),
    }
}

#[test]
fn delete_and_read_failures() {
    assert!(image_delete_result(1).is_ok());
    match image_delete_result(0) {
        Err(AppError::NotFound(m)) => assert_eq!(m, "Image not found"),
        _ => panic!("expected not found"),
    }
    match image_read_failed() {
        AppError::NotFound(m) => assert_eq!(m, "Image not found"),
        _ => panic!("expected not found"),
    }
}

#[test]
fn matching_etag_is_fresh_before_the_key_is_looked_at() {
    assert!(image_is_fresh("\u{e9}abc", Some("\"\u{e9}abc\"")));
    assert!(!image_is_fresh("abcdef", Some("abcdef")));
    assert!(!image_is_fresh("abcdef", None));
    let r = plan_image_fetch("/img", "\u{e9}abc", Some("\"\u{e9}abc\""));
    assert!(matches!(r, Ok(ImageFetch::NotModified)));
}
