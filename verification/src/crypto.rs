//! Hashing and HMAC signing helpers: digests rendered as lower-case hex,
//! and signature verification by recomputation.

use vstd::prelude::*;
use crate::hexstr::{hex_encode, hex_lower_of};
use hmac::Mac;
use sha2::Digest;

verus! {

/// What the SHA-256 digest of a byte sequence is.
pub uninterp spec fn sha256_of(data: Seq<u8>) -> Seq<u8>;

/// Relies on `sha2::Sha256`: the digest depends on the input bytes alone
/// and is 32 bytes long.
#[verifier::external_body]
fn sha256_digest(data: &[u8]) -> (r: Vec<u8>)
    ensures
        r@ == sha256_of(data@),
        r@.len() == 32,
{
    let mut hasher = sha2::Sha256::new();
    hasher.update(data);
    hasher.finalize().to_vec()
}

/// What the HMAC-SHA256 tag over a key and a message is.
pub uninterp spec fn hmac_sha256_of(key: Seq<u8>, data: Seq<u8>) -> Seq<u8>;

/// Relies on `hmac::Hmac<sha2::Sha256>`: the tag depends on the key and
/// message bytes alone and is 32 bytes long; `new_from_slice` accepts keys
/// of any length.
#[verifier::external_body]
fn hmac_sha256(key: &[u8], data: &[u8]) -> (r: Vec<u8>)
    ensures
        r@ == hmac_sha256_of(key@, data@),
        r@.len() == 32,
{
    let mut mac = <hmac::Hmac<sha2::Sha256> as Mac>::new_from_slice(key)
        .expect("HMAC can take key of any size");
    mac.update(data);
    mac.finalize().into_bytes().to_vec()
}

/// The SHA-256 hash of the data, as lower-case hex text.
pub fn sha256(data: &[u8]) -> (r: String)
    ensures
        r@ == hex_lower_of(sha256_of(data@)),
{
    let digest = sha256_digest(data);
    hex_encode(digest.as_slice())
}

/// The HMAC-SHA256 signature of the data under the key, as lower-case hex
/// text.
pub fn sign_data(data: &[u8], key: &[u8]) -> (r: String)
    ensures
        r@ == hex_lower_of(hmac_sha256_of(key@, data@)),
{
    let tag = hmac_sha256(key, data);
    hex_encode(tag.as_slice())
}

/// Whether the claimed signature is exactly the HMAC-SHA256 signature of
/// the data under the key, as `sign_data` renders it.
pub fn verify_signature(data: &[u8], signature: &str, key: &[u8]) -> (r: bool)
    ensures
        r == (hex_lower_of(hmac_sha256_of(key@, data@)) == signature@),
{
    let expected = sign_data(data, key);
    let claimed = signature.to_owned();
    expected == claimed
}

} // verus!
