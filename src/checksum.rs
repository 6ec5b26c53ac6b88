//! Checksums of downloaded content.

use vstd::prelude::*;

verus! {

/// The digest algorithm a checksum was made with.
#[derive(Clone, Copy, Debug, PartialEq, Eq, Structural)]
pub enum ChecksumType {
    SHA1,
    SHA256,
    MD5,
}

/// Lowercase hexadecimal SHA-1 digest of `data`.
pub uninterp spec fn sha1_hex(data: Seq<u8>) -> Seq<char>;

/// Lowercase hexadecimal SHA-256 digest of `data`.
pub uninterp spec fn sha256_hex(data: Seq<u8>) -> Seq<char>;

/// Lowercase hexadecimal MD5 digest of `data`.
pub uninterp spec fn md5_hex(data: Seq<u8>) -> Seq<char>;

/// Lowercase hexadecimal digest of `data` under `kind`.
pub open spec fn digest_hex(kind: ChecksumType, data: Seq<u8>) -> Seq<char> {
    match kind {
        ChecksumType::SHA1 => sha1_hex(data),
        ChecksumType::SHA256 => sha256_hex(data),
        ChecksumType::MD5 => md5_hex(data),
    }
}

/// `data` passes `expected`: an empty expectation trusts anything, any
/// other must equal the digest.
pub open spec fn checksum_ok(expected: Seq<char>, kind: ChecksumType, data: Seq<u8>) -> bool {
    expected.len() == 0 || expected == digest_hex(kind, data)
}

/// Relies on `sha1::Sha1::digest` and the lowercase hex formatting of its output.
#[verifier::external_body]
fn sha1_digest(data: &[u8]) -> (r: String)
    ensures
        r@ == sha1_hex(data@),
{
    format!("{:x}", <sha1::Sha1 as sha1::Digest>::digest(data))
}

/// Relies on `sha2::Sha256::digest` and the lowercase hex formatting of its output.
#[verifier::external_body]
fn sha256_digest(data: &[u8]) -> (r: String)
    ensures
        r@ == sha256_hex(data@),
{
    format!("{:x}", <sha2::Sha256 as sha2::Digest>::digest(data))
}

/// Relies on `md5::compute` and the lowercase hex formatting of its digest.
#[verifier::external_body]
fn md5_digest(data: &[u8]) -> (r: String)
    ensures
        r@ == md5_hex(data@),
{
    format!("{:x}", md5::compute(data))
}

/// Lowercase hexadecimal digest of `data` under `kind`.
pub fn digest(kind: ChecksumType, data: &Vec<u8>) -> (r: String)
    ensures
        r@ == digest_hex(kind, data@),
{
    match kind {
        ChecksumType::SHA1 => sha1_digest(data.as_slice()),
        ChecksumType::SHA256 => sha256_digest(data.as_slice()),
        ChecksumType::MD5 => md5_digest(data.as_slice()),
    }
}

/// Whether a computed digest satisfies `expected` (empty: trusted).
pub fn checksum_matches(expected: &String, actual: &String) -> (r: bool)
    ensures
        r == (expected@.len() == 0 || expected@ == actual@),
{
    expected.unicode_len() == 0 || *expected == *actual
}

/// Whether `data` passes `checksum`; an empty checksum is trusted without hashing.
pub fn verify_hash(checksum: &String, kind: ChecksumType, data: &Vec<u8>) -> (r: bool)
    ensures
        r == checksum_ok(checksum@, kind, data@),
{
    if checksum.unicode_len() == 0 {
        return true;
    }
    let actual = digest(kind, data);
    checksum_matches(checksum, &actual)
}

} // verus!
