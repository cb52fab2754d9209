//! Calls into the hashing, key-derivation and cipher crates, each with the
//! contract the library relies on.

use vstd::prelude::*;
use aes_gcm::aead::Aead;
use aes_gcm::KeyInit;
use hmac::Mac;
use md5::Digest;

verus! {

/// The 32-byte key that PBKDF2 with HMAC-SHA256 derives from `password` and
/// `salt` in `rounds` rounds.
pub uninterp spec fn pbkdf2_hmac_sha256_32(password: Seq<u8>, salt: Seq<u8>, rounds: u32) -> Seq<u8>;

/// The plaintext that AES-256-GCM recovers from `ciphertext` (message then
/// 16-byte tag) under `key` and the 12-byte `nonce`, or nothing when the tag
/// does not authenticate it.
pub uninterp spec fn aes256gcm_open(key: Seq<u8>, nonce: Seq<u8>, ciphertext: Seq<u8>) -> Option<Seq<u8>>;

/// Derives a 32-byte key with `pbkdf2::pbkdf2_hmac::<sha2::Sha256>`.
///
/// The contract names the derived key; PBKDF2 is deterministic and never
/// fails with HMAC, so nothing else is claimed.
#[verifier::external_body]
pub(crate) fn pbkdf2_sha256_32(password: &[u8], salt: &[u8], rounds: u32) -> (key: [u8; 32])
    ensures
        key@ == pbkdf2_hmac_sha256_32(password@, salt@, rounds),
{
    let mut key = [0u8; 32];
    pbkdf2::pbkdf2_hmac::<sha2::Sha256>(password, salt, rounds, &mut key);
    key
}

/// Decrypts with `aes_gcm::Aes256Gcm::decrypt` (via the `aead::Aead` trait).
///
/// Claims: success exactly when the named result is present, and then the
/// plaintext is it and is 16 bytes shorter than the ciphertext; a ciphertext
/// shorter than the 16-byte tag always fails; a failure reads
/// `aead::Error`, the text of the crate's only error value.
#[verifier::external_body]
pub(crate) fn aes256gcm_decrypt(key: &[u8; 32], nonce: &[u8], ciphertext: &[u8]) -> (r: Result<
    Vec<u8>,
    String,
>)
    requires
        nonce@.len() == 12,
    ensures
        match aes256gcm_open(key@, nonce@, ciphertext@) {
            Some(p) => r matches Ok(v) && v@ == p,
            None => r matches Err(m) && m@ == "aead::Error"@,
        },
        r matches Ok(v) ==> v@.len() + 16 == ciphertext@.len(),
        ciphertext@.len() < 16 ==> r is Err,
{
    let cipher = aes_gcm::Aes256Gcm::new(key.into());
    match cipher.decrypt(aes_gcm::Nonce::from_slice(nonce), ciphertext) {
        Ok(p) => Ok(p),
        Err(e) => Err(e.to_string()),
    }
}

/// The 16-byte MD5 digest of `data`.
pub uninterp spec fn md5_digest(data: Seq<u8>) -> Seq<u8>;

/// The 20-byte HMAC-SHA1 tag of `data` under `key`.
pub uninterp spec fn hmac_sha1_tag(key: Seq<u8>, data: Seq<u8>) -> Seq<u8>;

/// The 32-byte HMAC-SHA256 tag of `data` under `key`.
pub uninterp spec fn hmac_sha256_tag(key: Seq<u8>, data: Seq<u8>) -> Seq<u8>;

/// The MD5 digest of bytes, through `md5::Md5::digest` (the `md-5` crate).
///
/// The contract names the digest and claims its 16-byte length.
#[verifier::external_body]
pub(crate) fn md5_bytes(data: &[u8]) -> (r: Vec<u8>)
    ensures
        r@ == md5_digest(data@),
        r@.len() == 16,
{
    md5::Md5::digest(data).to_vec()
}

/// The HMAC-SHA1 tag of `data` under `key`, through `hmac::Hmac<sha1::Sha1>`.
///
/// The contract names the tag and claims its 20-byte length; the crate's
/// `new_from_slice` accepts a key of any length, so the call cannot fail.
#[verifier::external_body]
pub(crate) fn hmac_sha1_bytes(key: &[u8], data: &[u8]) -> (r: Vec<u8>)
    ensures
        r@ == hmac_sha1_tag(key@, data@),
        r@.len() == 20,
{
    let mut mac = <hmac::Hmac<sha1::Sha1> as Mac>::new_from_slice(key).expect("any key length");
    mac.update(data);
    mac.finalize().into_bytes().to_vec()
}

/// The HMAC-SHA256 tag of `data` under `key`, through
/// `hmac::Hmac<sha2::Sha256>`.
///
/// The contract names the tag and claims its 32-byte length; the crate's
/// `new_from_slice` accepts a key of any length, so the call cannot fail.
#[verifier::external_body]
pub(crate) fn hmac_sha256_bytes(key: &[u8], data: &[u8]) -> (r: Vec<u8>)
    ensures
        r@ == hmac_sha256_tag(key@, data@),
        r@.len() == 32,
{
    let mut mac = <hmac::Hmac<sha2::Sha256> as Mac>::new_from_slice(key).expect("any key length");
    mac.update(data);
    mac.finalize().into_bytes().to_vec()
}

} // verus!
