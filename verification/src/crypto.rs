//! Keyed and plain digests.

use hmac::{Hmac, Mac};
use sha2::{Digest, Sha256};
use vstd::prelude::*;
use vstd::utf8::encode_utf8;
use crate::hex::{hex_encode, hex_text};

verus! {

/// HMAC-SHA-256 of `message` under `key`.
pub uninterp spec fn hmac_sha256(key: Seq<u8>, message: Seq<u8>) -> Seq<u8>;

/// SHA-256 of `data`.
pub uninterp spec fn sha256(data: Seq<u8>) -> Seq<u8>;

/// HMAC-SHA-256 by the `hmac` crate: `Hmac::<Sha256>::new_from_slice`, which takes a key of any
/// length, then `update` with the message and `finalize`. The tag is a function of key and
/// message, and has 32 bytes.
#[verifier::external_body]
pub(crate) fn hmac_tag(key: &[u8], message: &[u8]) -> (tag: Vec<u8>)
    ensures
        tag@ == hmac_sha256(key@, message@),
        tag@.len() == 32,
{
    let mut mac = Hmac::<Sha256>::new_from_slice(key).expect("HMAC can take key of any size");
    mac.update(message);
    mac.finalize().into_bytes().to_vec()
}

/// SHA-256 by `Sha256::digest` of the `sha2` crate. The digest is a function of the data, and
/// has 32 bytes.
#[verifier::external_body]
pub(crate) fn sha256_digest(data: &[u8]) -> (digest: Vec<u8>)
    ensures
        digest@ == sha256(data@),
        digest@.len() == 32,
{
    Sha256::digest(data).to_vec()
}

/// What is stored in place of an authentication key: the digest of the key and the server's salt,
/// in hexadecimal.
pub open spec fn stored_hash(auth_key: Seq<char>) -> Seq<char> {
    hex_text(sha256(encode_utf8(auth_key) + encode_utf8("server-salt-dill-share"@)))
}

/// What is stored in place of an authentication key.
pub fn hash_auth_key(auth_key: &str) -> (r: String)
    ensures
        r@ == stored_hash(auth_key@),
        r@.len() == 64,
{
    let mut data: Vec<u8> = auth_key.as_bytes_vec();
    let mut salt: Vec<u8> = "server-salt-dill-share".as_bytes_vec();
    data.append(&mut salt);
    let digest = sha256_digest(data.as_slice());
    hex_encode(digest.as_slice())
}

} // verus!
