//! Identifiers and digests that the pipeline takes from outside crates.
//!
//! The digests are named rather than spelled out: `sha256_hex_of` and
//! `md5_hex_of` stand for what the respective crates compute, and every
//! contract that mentions a digest speaks through these names.

use vstd::prelude::*;
use sha2::Digest;

verus! {

/// The lower-case hex encoding of the SHA-256 digest of `content`.
pub uninterp spec fn sha256_hex_of(content: Seq<char>) -> Seq<char>;

/// The lower-case hex encoding of the MD5 digest of `content`.
pub uninterp spec fn md5_hex_of(content: Seq<char>) -> Seq<char>;

/// Relies on `uuid::Uuid::new_v4` and its `Display` impl: a fresh random
/// identifier in the hyphenated form, which is always 36 characters.
#[verifier::external_body]
pub fn generate_id() -> (r: String)
    ensures
        r@.len() == 36,
{
    uuid::Uuid::new_v4().to_string()
}

/// Relies on `sha2::Sha256`: 32 digest bytes, printed as 64 lower-case hex
/// characters. The digest depends on the content alone.
#[verifier::external_body]
pub fn generate_content_hash(content: &str) -> (r: String)
    ensures
        r@ == sha256_hex_of(content@),
        r@.len() == 64,
{
    let mut hasher = sha2::Sha256::new();
    hasher.update(content.as_bytes());
    format!("{:x}", hasher.finalize())
}

/// Relies on `md5::compute`: 16 digest bytes, printed as 32 lower-case hex
/// characters. The digest depends on the content alone.
#[verifier::external_body]
pub fn md5_hex(content: &str) -> (r: String)
    ensures
        r@ == md5_hex_of(content@),
        r@.len() == 32,
{
    format!("{:x}", md5::compute(content.as_bytes()))
}

} // verus!
