//! Hashing and compression of stored bytes: SHA-256 digests in lowercase
//! hex (key hashes, detail-pack names and member checks) and gzip members
//! of detail packs.
use vstd::prelude::*;
use sha2::Digest;
use std::io::Write;
use crate::text::{hex_lower, to_hex_lower};
use vstd::string::StringSliceAdditionalSpecFns;

verus! {

/// The SHA-256 digest of a byte string.
pub uninterp spec fn sha256(data: Seq<u8>) -> Seq<u8>;

/// `sha2::Sha256::digest`: the 32-byte SHA-256 digest of `data`, a function
/// of `data` alone.
#[verifier::external_body]
fn sha256_digest(data: &[u8]) -> (r: Vec<u8>)
    ensures
        r@ == sha256(data@),
        r@.len() == 32,
{
    sha2::Sha256::digest(data).to_vec()
}

/// The gzip member that compresses a byte string.
pub uninterp spec fn gzip_member(data: Seq<u8>) -> Seq<u8>;

/// gzip compression at the default level with `flate2::write::GzEncoder`
/// (`new`, `write_all`, `finish`) into a `Vec<u8>`: the compressed bytes, a
/// function of `data` alone. The encoder's error paths cannot be taken here:
/// writing into a `Vec` never fails, and the miniz_oxide backend reports an
/// error only after a flush mode other than `Finish` follows `Finish`, or
/// after an earlier error, which this sequence of calls never does; so the
/// result is always `Some`.
#[verifier::external_body]
fn gzip_bytes(data: &[u8]) -> (r: Option<Vec<u8>>)
    ensures
        r is Some,
        r matches Some(v) ==> v@ == gzip_member(data@),
{
    let mut encoder = flate2::write::GzEncoder::new(Vec::new(), flate2::Compression::default());
    match encoder.write_all(data) {
        Ok(()) => {},
        Err(_) => return None,
    }
    match encoder.finish() {
        Ok(bytes) => Some(bytes),
        Err(_) => None,
    }
}

/// The gzip member of a byte string; compressing into memory does not fail.
pub fn gzip_compress(data: &[u8]) -> (r: Option<Vec<u8>>)
    ensures
        r is Some,
        r matches Some(v) ==> v@ == gzip_member(data@),
{
    gzip_bytes(data)
}

/// The lowercase hex SHA-256 digest of a byte string.
pub fn sha256_hex(data: &[u8]) -> (r: String)
    ensures
        r@ == hex_lower(sha256(data@)),
        r@.len() == 64,
{
    let digest = sha256_digest(data);
    to_hex_lower(&digest)
}

/// The stored hash of a bearer secret: the lowercase hex SHA-256 digest of
/// its UTF-8 bytes.
pub fn hash_bearer_secret(secret: &str) -> (r: String)
    ensures
        r@ == hex_lower(sha256(secret.spec_bytes())),
{
    sha256_hex(secret.as_bytes())
}

/// Whether a member read back from a detail pack has the digest its
/// reference records.
pub fn detail_member_matches(bytes: &[u8], expected_sha256: &str) -> (r: bool)
    ensures
        r == (hex_lower(sha256(bytes@)) == expected_sha256@),
{
    let actual = sha256_hex(bytes);
    crate::text::str_equals(actual.as_str(), expected_sha256)
}

} // verus!
