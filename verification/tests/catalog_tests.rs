use foodly_backend::api::catalogs::{
    check_tag_icon_upload, ingredient_from_row, tag_icon_hash, tag_icon_read_failed,
    tag_update_result,
};
use foodly_backend::error::AppError;

fn message(r: Result<(), AppError>) -> String {
    match r {
        Err(AppError::Unprocessable(m)) => m,
        Err(AppError::NotFound(m)) => m,
        _ => panic!("expected an error with a message"),
    }
}

#[test]
fn svg_icon_is_accepted() {
    assert!(check_tag_icon_upload(b"<?xml version=\"1.0\"?><svg xmlns=\"x\"></svg>").is_ok());
}

#[test]
fn empty_icon_is_rejected() {
    assert_eq!(message(check_tag_icon_upload(b"")), "Empty body");
}

#[test]
fn non_svg_icon_is_rejected() {
    assert_eq!(message(check_tag_icon_upload(b"<html></html>")), "Invalid SVG format");
    assert_eq!(message(check_tag_icon_upload(&[0xFF, 0xFE, 0x3C])), "Invalid SVG format");
}

#[test]
fn svg_root_must_be_in_first_kilobyte() {
    let mut late = vec![b' '; 1024];
    late.extend_from_slice(b"<svg></svg>");
    assert_eq!(message(check_tag_icon_upload(&late)), "Invalid SVG format");
    let mut early = vec![b' '; 1020];
    early.extend_from_slice(b"<svg></svg>");
    assert!(check_tag_icon_upload(&early).is_ok());
}

#[test]
fn prefix_cut_inside_a_character_is_rejected() {
    let mut body = b"<svg>".to_vec();
    body.extend(vec![b' '; 1018]);
    body.extend_from_slice("é".as_bytes()); // bytes 1023 and 1024
    assert_eq!(body.len(), 1025);
    assert_eq!(message(check_tag_icon_upload(&body)), "Invalid SVG format");
}

#[test]
fn tag_icon_lookup() {
    assert_eq!(message(tag_icon_hash(None).map(|_| ())), "Tag not found");
    assert_eq!(message(tag_icon_hash(Some(None)).map(|_| ())), "Tag has no icon");
    assert_eq!(tag_icon_hash(Some(Some("vegan".to_string()))).ok(), Some("vegan".to_string()));
    match tag_icon_read_failed() {
        AppError::NotFound(m) => assert_eq!(m, "Icon file not found"),
        _ => panic!("expected not found"),
    }
}

#[test]
fn tag_update_needs_a_tag() {
    assert!(tag_update_result(1).is_ok());
    assert_eq!(message(tag_update_result(0)), "Tag not found");
}

#[test]
fn ingredient_ids_are_narrowed() {
    let ing = ingredient_from_row(7, "Spaghetti".to_string());
    assert_eq!(ing.id, 7);
    assert_eq!(ing.name, "Spaghetti");
    assert_eq!(ingredient_from_row((1i64 << 32) + 5, "x".to_string()).id, 5);
}
