use foodly_backend::services::storage::{content_hash, get_image_path, join_path, plan_image_save};

const FAKE_JPEG: [u8; 6] = [0xFF, 0xD8, 0xFF, 0x01, 0x02, 0x03];

#[test]
fn content_hash_is_lowercase_hex_sha256() {
    assert_eq!(
        content_hash(&FAKE_JPEG),
        "6456b2ac4bae7c410724a1dbd8eeaaf2a9cb6b03c3e6c82ccd8101b284656791"
    );
    assert_eq!(
        content_hash(b""),
        "e3b0c44298fc1c149afbf4c8996fb92427ae41e4649b934ca495991b7852b855"
    );
}

#[test]
fn content_hash_has_64_characters() {
    // a profile picture's key is always 64 characters long
    assert_eq!(content_hash(&FAKE_JPEG).len(), 64);
    assert_eq!(content_hash(b"hello").len(), 64);
}

#[test]
fn same_bytes_same_key_different_bytes_different_key() {
    assert_eq!(content_hash(b"hello"), content_hash(b"hello"));
    assert_ne!(content_hash(b"hello"), content_hash(b"hello!"));
}

#[test]
fn image_path_fans_out_by_key_prefix() {
    assert_eq!(
        get_image_path("./storage/images", "abcdef0123"),
        "./storage/images/ab/cd/abcdef0123"
    );
    assert_eq!(get_image_path("/tmp/", "abcd"), "/tmp/ab/cd/abcd");
    assert_eq!(get_image_path("", "abcd"), "ab/cd/abcd");
}

#[test]
fn image_path_splits_at_byte_positions() {
    // two-byte characters: byte 2 and byte 4 start characters
    assert_eq!(get_image_path("d", "ééx"), "d/é/é/ééx");
}

#[test]
fn join_path_follows_unix_rules() {
    assert_eq!(join_path("a", "b"), "a/b");
    assert_eq!(join_path("a/", "b"), "a/b");
    assert_eq!(join_path("", "b"), "b");
    assert_eq!(join_path("a", "/b"), "/b");
    assert_eq!(join_path("a", ""), "a/");
}

#[test]
fn saved_image_is_found_where_reads_look() {
    let plan = plan_image_save("/srv/img", &FAKE_JPEG);
    assert_eq!(plan.hash, content_hash(&FAKE_JPEG));
    assert_eq!(plan.hash.len(), 64);
    assert!(plan.hash.chars().all(|c| c.is_ascii_digit() || ('a'..='f').contains(&c)));
    assert_eq!(plan.dir, "/srv/img/64/56");
    assert_eq!(plan.file, get_image_path("/srv/img", &plan.hash));
    assert_eq!(
        plan.file,
        "/srv/img/64/56/6456b2ac4bae7c410724a1dbd8eeaaf2a9cb6b03c3e6c82ccd8101b284656791"
    );
}
