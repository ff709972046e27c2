//! Content-addressed image storage: images are kept under the lowercase hex
//! SHA-256 of their bytes, in a two-level directory fan-out
//! (`<dir>/ab/cd/abcd...`).

use sha2::{Digest, Sha256};
use vstd::prelude::*;
use vstd::string::*;
use vstd::utf8::*;

verus! {

broadcast use {vstd::string::group_string_axioms, vstd::utf8::group_utf8_lib};

/// The SHA-256 digest of `data`, as computed by the `sha2` crate.
pub uninterp spec fn sha256(data: Seq<u8>) -> Seq<u8>;

/// Calls `sha2::Sha256` (`new`, `update`, `finalize`) on `data`. The result
/// is the digest that `sha256` names; it is 32 bytes long, the digest's
/// `OutputSize` (`U32`).
#[verifier::external_body]
fn sha256_digest(data: &[u8]) -> (digest: Vec<u8>)
    ensures
        digest@ == sha256(data@),
        digest@.len() == 32,
{
    let mut hasher = Sha256::new();
    hasher.update(data);
    hasher.finalize().to_vec()
}

/// The lowercase hexadecimal digit of `n` (`0 <= n < 16`).
pub open spec fn hex_digit(n: int) -> char {
    if n < 10 {
        ('0' as int + n) as char
    } else {
        ('a' as int + (n - 10)) as char
    }
}

/// Lowercase hex encoding: two digits per byte, high nibble first.
pub open spec fn hex_lower(data: Seq<u8>) -> Seq<char>
    decreases data.len(),
{
    if data.len() == 0 {
        seq![]
    } else {
        seq![hex_digit(data[0] as int / 16), hex_digit(data[0] as int % 16)] + hex_lower(data.drop_first())
    }
}

/// Calls `hex::encode`, which maps each byte to two characters of the table
/// `0123456789abcdef` (high nibble, then low nibble).
#[verifier::external_body]
fn hex_encode(data: &[u8]) -> (s: String)
    ensures
        s@ == hex_lower(data@),
{
    hex::encode(data)
}

pub open spec fn is_lower_hex_char(c: char) -> bool {
    ('0' <= c <= '9') || ('a' <= c <= 'f')
}

/// A text made of lowercase hex digits only.
pub open spec fn is_lower_hex(s: Seq<char>) -> bool {
    forall|i: int| 0 <= i < s.len() ==> is_lower_hex_char(#[trigger] s[i])
}

/// The storage key of an image: the hex of the SHA-256 of its bytes.
pub open spec fn content_hash_of(bytes: Seq<u8>) -> Seq<char> {
    hex_lower(sha256(bytes))
}

proof fn lemma_hex_lower(data: Seq<u8>)
    ensures
        hex_lower(data).len() == 2 * data.len(),
        is_lower_hex(hex_lower(data)),
    decreases data.len(),
{
    if data.len() > 0 {
        lemma_hex_lower(data.drop_first());
        let h = seq![hex_digit(data[0] as int / 16), hex_digit(data[0] as int % 16)];
        let t = hex_lower(data.drop_first());
        assert(hex_lower(data) == h + t);
        assert forall|i: int| 0 <= i < hex_lower(data).len() implies is_lower_hex_char(
            #[trigger] hex_lower(data)[i],
        ) by {
            if i >= 2 {
                assert(hex_lower(data)[i] == t[i - 2]);
            }
        }
    }
}

/// The storage key of `bytes`: 64 lowercase hex digits.
pub fn content_hash(bytes: &[u8]) -> (hash: String)
    ensures
        hash@ == content_hash_of(bytes@),
        hash@.len() == 64,
        is_lower_hex(hash@),
        is_image_key(hash@),
{
    let digest = sha256_digest(bytes);
    let hash = hex_encode(digest.as_slice());
    proof {
        lemma_hex_lower(digest@);
        lemma_hex_key_is_image_key(hash@);
    }
    hash
}

/// `PathBuf::join` on Unix: an absolute component replaces the path;
/// otherwise a `/` is put between the two unless the path is empty or
/// already ends with one.
pub open spec fn path_join(base: Seq<char>, comp: Seq<char>) -> Seq<char> {
    if comp.len() > 0 && comp[0] == '/' {
        comp
    } else if base.len() == 0 || base.last() == '/' {
        base + comp
    } else {
        base + seq!['/'] + comp
    }
}

/// The characters whose UTF-8 encoding is the bytes `from..to` of the encoding of `s`.
pub open spec fn byte_slice(s: Seq<char>, from: int, to: int) -> Seq<char> {
    decode_utf8(encode_utf8(s).subrange(from, to))
}

/// `&hash[0..2]` and `&hash[2..4]` are defined: the key has at least four
/// bytes and bytes 2 and 4 start characters.
pub open spec fn is_image_key(hash: Seq<char>) -> bool {
    let b = encode_utf8(hash);
    &&& b.len() >= 4
    &&& is_char_boundary(b, 2)
    &&& is_char_boundary(b, 4)
}

/// The directory of an image: `<dir>/<bytes 0..2 of key>/<bytes 2..4 of key>`.
pub open spec fn image_dir(dir: Seq<char>, hash: Seq<char>) -> Seq<char> {
    path_join(path_join(dir, byte_slice(hash, 0, 2)), byte_slice(hash, 2, 4))
}

/// The file of an image: its directory joined with the whole key.
pub open spec fn image_path(dir: Seq<char>, hash: Seq<char>) -> Seq<char> {
    path_join(image_dir(dir, hash), hash)
}

/// Joins a path component onto a path, as `PathBuf::join` does on Unix.
pub fn join_path(base: &str, comp: &str) -> (p: String)
    ensures
        p@ == path_join(base@, comp@),
{
    proof {
        reveal_strlit("/");
    }
    let cn = comp.unicode_len();
    if cn > 0 && comp.get_char(0) == '/' {
        return String::from_str(comp);
    }
    let bn = base.unicode_len();
    if bn == 0 || base.get_char(bn - 1) == '/' {
        String::from_str(base).concat(comp)
    } else {
        let p = String::from_str(base).concat("/").concat(comp);
        assert(p@ =~= base@ + seq!['/'] + comp@);
        p
    }
}

/// Splits the first two key components off an image key:
/// `(&hash[0..2], &hash[2..4])`.
fn key_prefixes(hash: &str) -> (parts: (&str, &str))
    requires
        is_image_key(hash@),
    ensures
        parts.0@ == byte_slice(hash@, 0, 2),
        parts.1@ == byte_slice(hash@, 2, 4),
{
    let ghost b = hash.spec_bytes();
    proof {
        assert(valid_utf8(b));
        is_char_boundary_iff_not_is_continuation_byte(b, 2);
    }
    let (first4, _) = hash.split_at(4);
    proof {
        let f = first4.spec_bytes();
        assert(f =~= b.subrange(0, 4));
        assert(valid_utf8(f));
        is_char_boundary_iff_not_is_continuation_byte(f, 2);
        assert(f[2] == b[2]);
    }
    let (p1, rest) = first4.split_at(2);
    proof {
        let f = first4.spec_bytes();
        assert(p1.spec_bytes() =~= b.subrange(0, 2));
        assert(rest.spec_bytes() =~= b.subrange(2, 4));
        assert(decode_utf8(encode_utf8(p1@)) == p1@);
        assert(decode_utf8(encode_utf8(rest@)) == rest@);
    }
    (p1, rest)
}

/// The file that holds the image with key `hash` under `storage_dir`:
/// `storage_dir.join(&hash[0..2]).join(&hash[2..4]).join(hash)`.
pub fn get_image_path(storage_dir: &str, hash: &str) -> (path: String)
    requires
        is_image_key(hash@),
    ensures
        path@ == image_path(storage_dir@, hash@),
{
    let (p1, p2) = key_prefixes(hash);
    let d1 = join_path(storage_dir, p1);
    let d2 = join_path(d1.as_str(), p2);
    join_path(d2.as_str(), hash)
}

/// Where an upload is stored: its key, the directory to create and the file
/// to write.
pub struct ImageSavePlan {
    pub hash: String,
    pub dir: String,
    pub file: String,
}

/// The computing part of saving an image: the key of `bytes` (64 lowercase
/// hex digits), the directory `storage_dir/ab/cd` and the file
/// `storage_dir/ab/cd/<key>`.
pub fn plan_image_save(storage_dir: &str, bytes: &[u8]) -> (plan: ImageSavePlan)
    ensures
        plan.hash@ == content_hash_of(bytes@),
        plan.hash@.len() == 64,
        is_lower_hex(plan.hash@),
        is_image_key(plan.hash@),
        plan.dir@ == image_dir(storage_dir@, plan.hash@),
        plan.file@ == path_join(plan.dir@, plan.hash@),
        plan.file@ == image_path(storage_dir@, plan.hash@),
{
    let hash = content_hash(bytes);
    let (p1, p2) = key_prefixes(hash.as_str());
    let d1 = join_path(storage_dir, p1);
    let dir = join_path(d1.as_str(), p2);
    let file = join_path(dir.as_str(), hash.as_str());
    ImageSavePlan { hash, dir, file }
}

/// Content addressing: the file that saving `bytes` writes (the image
/// directory of their key, joined with the key) is the file that reading or
/// deleting that key opens, and the key is a valid image key.
pub proof fn lemma_saved_image_is_found(storage_dir: Seq<char>, bytes: Seq<u8>, hash: Seq<char>)
    requires
        hash == content_hash_of(bytes),
        hash.len() == 64,
        is_lower_hex(hash),
    ensures
        path_join(image_dir(storage_dir, hash), hash) == image_path(storage_dir, hash),
        is_image_key(hash),
        image_dir(storage_dir, hash) == path_join(path_join(storage_dir, hash.subrange(0, 2)), hash.subrange(2, 4)),
{
    lemma_hex_key_is_image_key(hash);
}

/// Every character of a lowercase hex text is ASCII, so its bytes are its characters.
proof fn lemma_lower_hex_bytes(s: Seq<char>)
    requires
        is_lower_hex(s),
    ensures
        encode_utf8(s) =~= Seq::new(s.len(), |i: int| s[i] as u8),
        is_ascii_chars(s),
{
    assert(is_ascii_chars(s)) by {
        assert forall|i: int| 0 <= i < s.len() implies '\0' <= #[trigger] s[i] <= '\u{7f}' by {
            assert(is_lower_hex_char(s[i]));
        }
    }
    is_ascii_chars_encode_utf8(s);
}

/// A key made of at least four lowercase hex digits splits at bytes 2 and 4,
/// and its first components are its first characters.
pub proof fn lemma_hex_key_is_image_key(hash: Seq<char>)
    requires
        is_lower_hex(hash),
        hash.len() >= 4,
    ensures
        is_image_key(hash),
        byte_slice(hash, 0, 2) == hash.subrange(0, 2),
        byte_slice(hash, 2, 4) == hash.subrange(2, 4),
{
    lemma_lower_hex_bytes(hash);
    let b = encode_utf8(hash);
    assert(valid_utf8(b));
    is_char_boundary_iff_not_is_continuation_byte(b, 2);
    assert(!is_continuation_byte(b[2]));
    if b.len() > 4 {
        is_char_boundary_iff_not_is_continuation_byte(b, 4);
        assert(!is_continuation_byte(b[4]));
    } else {
        is_char_boundary_start_end_of_seq(b);
    }
    let h1 = hash.subrange(0, 2);
    let h2 = hash.subrange(2, 4);
    lemma_lower_hex_bytes(h1);
    lemma_lower_hex_bytes(h2);
    assert(encode_utf8(h1) =~= b.subrange(0, 2));
    assert(encode_utf8(h2) =~= b.subrange(2, 4));
}

} // verus!
