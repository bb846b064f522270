//! Web Crypto operations: digests, HMAC, AES in GCM, CBC and CTR modes,
//! PBKDF2 and HKDF, random bytes, and the JSON dispatcher through which the
//! JavaScript side calls them with base64-encoded byte arrays.
//!
//! The algorithms themselves are the crates' (`sha1`, `sha2`, `hmac`, `aes`,
//! `aes-gcm`, `cbc`, `ctr`, `pbkdf2`, `hkdf`); each result is named after the
//! function that computes it. What the library decides is which algorithm a
//! request selects and which requests are refused, with which message.

use aes_gcm::aead::{Aead, KeyInit, Payload};
use cbc::cipher::block_padding::Pkcs7;
use cbc::cipher::{BlockDecryptMut, BlockEncryptMut, KeyIvInit, StreamCipher};
use hmac::Mac;
use sha2::Digest;
use vstd::prelude::*;
use crate::codec::{base64_decode, base64_decoded, base64_encode, base64_encoded, json_array_error, json_array_parsed, parse_json_args, JsonArg, JsonArgView};
use crate::text::{ascii_upper, chars_of, eq_str, json_quote, push_json_string, push_str, string_from, to_ascii_upper};

verus! {

/// The SHA-1 digest of `data`.
pub uninterp spec fn sha1_of(data: Seq<u8>) -> Seq<u8>;

/// `sha1::Sha1::digest`: the SHA-1 digest of `data`, 20 bytes long.
#[verifier::external_body]
fn sha1_digest(data: &[u8]) -> (r: Vec<u8>)
    ensures
        r@ == sha1_of(data@),
        r@.len() == 20,
{
    sha1::Sha1::digest(data).to_vec()
}

/// The SHA-256 digest of `data`.
pub uninterp spec fn sha256_of(data: Seq<u8>) -> Seq<u8>;

/// `sha2::Sha256::digest`: the SHA-256 digest of `data`, 32 bytes long.
#[verifier::external_body]
fn sha256_digest(data: &[u8]) -> (r: Vec<u8>)
    ensures
        r@ == sha256_of(data@),
        r@.len() == 32,
{
    sha2::Sha256::digest(data).to_vec()
}

/// The SHA-384 digest of `data`.
pub uninterp spec fn sha384_of(data: Seq<u8>) -> Seq<u8>;

/// `sha2::Sha384::digest`: the SHA-384 digest of `data`, 48 bytes long.
#[verifier::external_body]
fn sha384_digest(data: &[u8]) -> (r: Vec<u8>)
    ensures
        r@ == sha384_of(data@),
        r@.len() == 48,
{
    sha2::Sha384::digest(data).to_vec()
}

/// The SHA-512 digest of `data`.
pub uninterp spec fn sha512_of(data: Seq<u8>) -> Seq<u8>;

/// `sha2::Sha512::digest`: the SHA-512 digest of `data`, 64 bytes long.
#[verifier::external_body]
fn sha512_digest(data: &[u8]) -> (r: Vec<u8>)
    ensures
        r@ == sha512_of(data@),
        r@.len() == 64,
{
    sha2::Sha512::digest(data).to_vec()
}

/// The SHA-512/224 digest of `data`.
pub uninterp spec fn sha512_224_of(data: Seq<u8>) -> Seq<u8>;

/// `sha2::Sha512_224::digest`: the SHA-512/224 digest of `data`, 28 bytes long.
#[verifier::external_body]
fn sha512_224_digest(data: &[u8]) -> (r: Vec<u8>)
    ensures
        r@ == sha512_224_of(data@),
        r@.len() == 28,
{
    sha2::Sha512_224::digest(data).to_vec()
}

/// The SHA-512/256 digest of `data`.
pub uninterp spec fn sha512_256_of(data: Seq<u8>) -> Seq<u8>;

/// `sha2::Sha512_256::digest`: the SHA-512/256 digest of `data`, 32 bytes long.
#[verifier::external_body]
fn sha512_256_digest(data: &[u8]) -> (r: Vec<u8>)
    ensures
        r@ == sha512_256_of(data@),
        r@.len() == 32,
{
    sha2::Sha512_256::digest(data).to_vec()
}

/// The HMAC-SHA-1 of `data` under `key`.
pub uninterp spec fn hmac_sha1_of(key: Seq<u8>, data: Seq<u8>) -> Seq<u8>;

/// `Hmac::<sha1::Sha1>`: the HMAC of `data` under `key`, 20 bytes long. An HMAC
/// key may have any length, so creating the MAC does not fail.
#[verifier::external_body]
fn hmac_sha1(key: &[u8], data: &[u8]) -> (r: Vec<u8>)
    ensures
        r@ == hmac_sha1_of(key@, data@),
        r@.len() == 20,
{
    let mut mac = <hmac::Hmac<sha1::Sha1> as Mac>::new_from_slice(key).unwrap();
    mac.update(data);
    mac.finalize().into_bytes().to_vec()
}

/// The HMAC-SHA-256 of `data` under `key`.
pub uninterp spec fn hmac_sha256_of(key: Seq<u8>, data: Seq<u8>) -> Seq<u8>;

/// `Hmac::<sha2::Sha256>`: the HMAC of `data` under `key`, 32 bytes long. An HMAC
/// key may have any length, so creating the MAC does not fail.
#[verifier::external_body]
fn hmac_sha256(key: &[u8], data: &[u8]) -> (r: Vec<u8>)
    ensures
        r@ == hmac_sha256_of(key@, data@),
        r@.len() == 32,
{
    let mut mac = <hmac::Hmac<sha2::Sha256> as Mac>::new_from_slice(key).unwrap();
    mac.update(data);
    mac.finalize().into_bytes().to_vec()
}

/// The HMAC-SHA-384 of `data` under `key`.
pub uninterp spec fn hmac_sha384_of(key: Seq<u8>, data: Seq<u8>) -> Seq<u8>;

/// `Hmac::<sha2::Sha384>`: the HMAC of `data` under `key`, 48 bytes long. An HMAC
/// key may have any length, so creating the MAC does not fail.
#[verifier::external_body]
fn hmac_sha384(key: &[u8], data: &[u8]) -> (r: Vec<u8>)
    ensures
        r@ == hmac_sha384_of(key@, data@),
        r@.len() == 48,
{
    let mut mac = <hmac::Hmac<sha2::Sha384> as Mac>::new_from_slice(key).unwrap();
    mac.update(data);
    mac.finalize().into_bytes().to_vec()
}

/// The HMAC-SHA-512 of `data` under `key`.
pub uninterp spec fn hmac_sha512_of(key: Seq<u8>, data: Seq<u8>) -> Seq<u8>;

/// `Hmac::<sha2::Sha512>`: the HMAC of `data` under `key`, 64 bytes long. An HMAC
/// key may have any length, so creating the MAC does not fail.
#[verifier::external_body]
fn hmac_sha512(key: &[u8], data: &[u8]) -> (r: Vec<u8>)
    ensures
        r@ == hmac_sha512_of(key@, data@),
        r@.len() == 64,
{
    let mut mac = <hmac::Hmac<sha2::Sha512> as Mac>::new_from_slice(key).unwrap();
    mac.update(data);
    mac.finalize().into_bytes().to_vec()
}

/// AES-128-GCM encryption of `data` with `aad` under `key` and nonce `iv`
/// (ciphertext followed by the tag), `None` where the cipher refuses it.
pub uninterp spec fn aes128_gcm_seal(key: Seq<u8>, iv: Seq<u8>, aad: Seq<u8>, data: Seq<u8>) -> Option<Seq<u8>>;

/// AES-128-GCM decryption, `None` where the tag does not authenticate.
pub uninterp spec fn aes128_gcm_open(key: Seq<u8>, iv: Seq<u8>, aad: Seq<u8>, data: Seq<u8>) -> Option<Seq<u8>>;

/// `Aead::encrypt` with AES-128-GCM; its error writes itself `aead::Error`.
#[verifier::external_body]
fn aes128_gcm_encrypt(key: &[u8], iv: &[u8], aad: &[u8], data: &[u8]) -> (r: Result<Vec<u8>, String>)
    requires
        key@.len() == 16,
        iv@.len() == 12,
    ensures
        match r {
            Ok(c) => aes128_gcm_seal(key@, iv@, aad@, data@) == Some(c@),
            Err(e) => aes128_gcm_seal(key@, iv@, aad@, data@) is None && e@ == "aead::Error"@,
        },
{
    let cipher = <aes_gcm::Aes128Gcm as KeyInit>::new_from_slice(key).unwrap();
    cipher.encrypt(aes_gcm::Nonce::from_slice(iv), Payload { msg: data, aad }).map_err(|e| e.to_string())
}

/// `Aead::decrypt` with AES-128-GCM.
#[verifier::external_body]
fn aes128_gcm_decrypt(key: &[u8], iv: &[u8], aad: &[u8], data: &[u8]) -> (r: Option<Vec<u8>>)
    requires
        key@.len() == 16,
        iv@.len() == 12,
    ensures
        match r {
            Some(p) => aes128_gcm_open(key@, iv@, aad@, data@) == Some(p@),
            None => aes128_gcm_open(key@, iv@, aad@, data@) is None,
        },
{
    let cipher = <aes_gcm::Aes128Gcm as KeyInit>::new_from_slice(key).unwrap();
    cipher.decrypt(aes_gcm::Nonce::from_slice(iv), Payload { msg: data, aad }).ok()
}

/// AES-192-GCM encryption of `data` with `aad` under `key` and nonce `iv`
/// (ciphertext followed by the tag), `None` where the cipher refuses it.
pub uninterp spec fn aes192_gcm_seal(key: Seq<u8>, iv: Seq<u8>, aad: Seq<u8>, data: Seq<u8>) -> Option<Seq<u8>>;

/// AES-192-GCM decryption, `None` where the tag does not authenticate.
pub uninterp spec fn aes192_gcm_open(key: Seq<u8>, iv: Seq<u8>, aad: Seq<u8>, data: Seq<u8>) -> Option<Seq<u8>>;

/// `Aead::encrypt` with AES-192-GCM; its error writes itself `aead::Error`.
#[verifier::external_body]
fn aes192_gcm_encrypt(key: &[u8], iv: &[u8], aad: &[u8], data: &[u8]) -> (r: Result<Vec<u8>, String>)
    requires
        key@.len() == 24,
        iv@.len() == 12,
    ensures
        match r {
            Ok(c) => aes192_gcm_seal(key@, iv@, aad@, data@) == Some(c@),
            Err(e) => aes192_gcm_seal(key@, iv@, aad@, data@) is None && e@ == "aead::Error"@,
        },
{
    let cipher = <aes_gcm::AesGcm::<aes_gcm::aes::Aes192, aes_gcm::aead::consts::U12> as KeyInit>::new_from_slice(key).unwrap();
    cipher.encrypt(aes_gcm::Nonce::from_slice(iv), Payload { msg: data, aad }).map_err(|e| e.to_string())
}

/// `Aead::decrypt` with AES-192-GCM.
#[verifier::external_body]
fn aes192_gcm_decrypt(key: &[u8], iv: &[u8], aad: &[u8], data: &[u8]) -> (r: Option<Vec<u8>>)
    requires
        key@.len() == 24,
        iv@.len() == 12,
    ensures
        match r {
            Some(p) => aes192_gcm_open(key@, iv@, aad@, data@) == Some(p@),
            None => aes192_gcm_open(key@, iv@, aad@, data@) is None,
        },
{
    let cipher = <aes_gcm::AesGcm::<aes_gcm::aes::Aes192, aes_gcm::aead::consts::U12> as KeyInit>::new_from_slice(key).unwrap();
    cipher.decrypt(aes_gcm::Nonce::from_slice(iv), Payload { msg: data, aad }).ok()
}

/// AES-256-GCM encryption of `data` with `aad` under `key` and nonce `iv`
/// (ciphertext followed by the tag), `None` where the cipher refuses it.
pub uninterp spec fn aes256_gcm_seal(key: Seq<u8>, iv: Seq<u8>, aad: Seq<u8>, data: Seq<u8>) -> Option<Seq<u8>>;

/// AES-256-GCM decryption, `None` where the tag does not authenticate.
pub uninterp spec fn aes256_gcm_open(key: Seq<u8>, iv: Seq<u8>, aad: Seq<u8>, data: Seq<u8>) -> Option<Seq<u8>>;

/// `Aead::encrypt` with AES-256-GCM; its error writes itself `aead::Error`.
#[verifier::external_body]
fn aes256_gcm_encrypt(key: &[u8], iv: &[u8], aad: &[u8], data: &[u8]) -> (r: Result<Vec<u8>, String>)
    requires
        key@.len() == 32,
        iv@.len() == 12,
    ensures
        match r {
            Ok(c) => aes256_gcm_seal(key@, iv@, aad@, data@) == Some(c@),
            Err(e) => aes256_gcm_seal(key@, iv@, aad@, data@) is None && e@ == "aead::Error"@,
        },
{
    let cipher = <aes_gcm::Aes256Gcm as KeyInit>::new_from_slice(key).unwrap();
    cipher.encrypt(aes_gcm::Nonce::from_slice(iv), Payload { msg: data, aad }).map_err(|e| e.to_string())
}

/// `Aead::decrypt` with AES-256-GCM.
#[verifier::external_body]
fn aes256_gcm_decrypt(key: &[u8], iv: &[u8], aad: &[u8], data: &[u8]) -> (r: Option<Vec<u8>>)
    requires
        key@.len() == 32,
        iv@.len() == 12,
    ensures
        match r {
            Some(p) => aes256_gcm_open(key@, iv@, aad@, data@) == Some(p@),
            None => aes256_gcm_open(key@, iv@, aad@, data@) is None,
        },
{
    let cipher = <aes_gcm::Aes256Gcm as KeyInit>::new_from_slice(key).unwrap();
    cipher.decrypt(aes_gcm::Nonce::from_slice(iv), Payload { msg: data, aad }).ok()
}

/// AES-128-CBC encryption of `data` with PKCS#7 padding under `key` and `iv`.
pub uninterp spec fn aes128_cbc_seal(key: Seq<u8>, iv: Seq<u8>, data: Seq<u8>) -> Seq<u8>;

/// AES-128-CBC decryption with PKCS#7 padding, `None` where the padding or
/// the length is invalid.
pub uninterp spec fn aes128_cbc_open(key: Seq<u8>, iv: Seq<u8>, data: Seq<u8>) -> Option<Seq<u8>>;

/// `cbc::Encryptor::<aes::Aes128>::encrypt_padded_vec_mut::<Pkcs7>`.
#[verifier::external_body]
fn aes128_cbc_encrypt(key: &[u8], iv: &[u8], data: &[u8]) -> (r: Vec<u8>)
    requires
        key@.len() == 16,
        iv@.len() == 16,
    ensures
        r@ == aes128_cbc_seal(key@, iv@, data@),
{
    cbc::Encryptor::<aes::Aes128>::new_from_slices(key, iv).unwrap().encrypt_padded_vec_mut::<Pkcs7>(data)
}

/// `cbc::Decryptor::<aes::Aes128>::decrypt_padded_vec_mut::<Pkcs7>`.
#[verifier::external_body]
fn aes128_cbc_decrypt(key: &[u8], iv: &[u8], data: &[u8]) -> (r: Option<Vec<u8>>)
    requires
        key@.len() == 16,
        iv@.len() == 16,
    ensures
        match r {
            Some(p) => aes128_cbc_open(key@, iv@, data@) == Some(p@),
            None => aes128_cbc_open(key@, iv@, data@) is None,
        },
{
    cbc::Decryptor::<aes::Aes128>::new_from_slices(key, iv).unwrap().decrypt_padded_vec_mut::<Pkcs7>(data).ok()
}

/// AES-192-CBC encryption of `data` with PKCS#7 padding under `key` and `iv`.
pub uninterp spec fn aes192_cbc_seal(key: Seq<u8>, iv: Seq<u8>, data: Seq<u8>) -> Seq<u8>;

/// AES-192-CBC decryption with PKCS#7 padding, `None` where the padding or
/// the length is invalid.
pub uninterp spec fn aes192_cbc_open(key: Seq<u8>, iv: Seq<u8>, data: Seq<u8>) -> Option<Seq<u8>>;

/// `cbc::Encryptor::<aes::Aes192>::encrypt_padded_vec_mut::<Pkcs7>`.
#[verifier::external_body]
fn aes192_cbc_encrypt(key: &[u8], iv: &[u8], data: &[u8]) -> (r: Vec<u8>)
    requires
        key@.len() == 24,
        iv@.len() == 16,
    ensures
        r@ == aes192_cbc_seal(key@, iv@, data@),
{
    cbc::Encryptor::<aes::Aes192>::new_from_slices(key, iv).unwrap().encrypt_padded_vec_mut::<Pkcs7>(data)
}

/// `cbc::Decryptor::<aes::Aes192>::decrypt_padded_vec_mut::<Pkcs7>`.
#[verifier::external_body]
fn aes192_cbc_decrypt(key: &[u8], iv: &[u8], data: &[u8]) -> (r: Option<Vec<u8>>)
    requires
        key@.len() == 24,
        iv@.len() == 16,
    ensures
        match r {
            Some(p) => aes192_cbc_open(key@, iv@, data@) == Some(p@),
            None => aes192_cbc_open(key@, iv@, data@) is None,
        },
{
    cbc::Decryptor::<aes::Aes192>::new_from_slices(key, iv).unwrap().decrypt_padded_vec_mut::<Pkcs7>(data).ok()
}

/// AES-256-CBC encryption of `data` with PKCS#7 padding under `key` and `iv`.
pub uninterp spec fn aes256_cbc_seal(key: Seq<u8>, iv: Seq<u8>, data: Seq<u8>) -> Seq<u8>;

/// AES-256-CBC decryption with PKCS#7 padding, `None` where the padding or
/// the length is invalid.
pub uninterp spec fn aes256_cbc_open(key: Seq<u8>, iv: Seq<u8>, data: Seq<u8>) -> Option<Seq<u8>>;

/// `cbc::Encryptor::<aes::Aes256>::encrypt_padded_vec_mut::<Pkcs7>`.
#[verifier::external_body]
fn aes256_cbc_encrypt(key: &[u8], iv: &[u8], data: &[u8]) -> (r: Vec<u8>)
    requires
        key@.len() == 32,
        iv@.len() == 16,
    ensures
        r@ == aes256_cbc_seal(key@, iv@, data@),
{
    cbc::Encryptor::<aes::Aes256>::new_from_slices(key, iv).unwrap().encrypt_padded_vec_mut::<Pkcs7>(data)
}

/// `cbc::Decryptor::<aes::Aes256>::decrypt_padded_vec_mut::<Pkcs7>`.
#[verifier::external_body]
fn aes256_cbc_decrypt(key: &[u8], iv: &[u8], data: &[u8]) -> (r: Option<Vec<u8>>)
    requires
        key@.len() == 32,
        iv@.len() == 16,
    ensures
        match r {
            Some(p) => aes256_cbc_open(key@, iv@, data@) == Some(p@),
            None => aes256_cbc_open(key@, iv@, data@) is None,
        },
{
    cbc::Decryptor::<aes::Aes256>::new_from_slices(key, iv).unwrap().decrypt_padded_vec_mut::<Pkcs7>(data).ok()
}

/// AES-128-CTR with a 32-bit big-endian counter: `data` XORed with the
/// keystream that starts at the counter block `counter`.
pub uninterp spec fn aes128_ctr32_apply(key: Seq<u8>, counter: Seq<u8>, data: Seq<u8>) -> Seq<u8>;

/// `ctr::Ctr32BE::<aes::Aes128>::apply_keystream`; the result is as long as
/// the data.
/// The keystream of the 32-bit counter runs out after `u32::MAX` blocks,
/// where the crate panics; `requires` keeps the data within it.
#[verifier::external_body]
fn aes128_ctr32(key: &[u8], counter: &[u8], data: &[u8]) -> (r: Vec<u8>)
    requires
        key@.len() == 16,
        counter@.len() == 16,
        data@.len() <= 68719476720,
    ensures
        r@ == aes128_ctr32_apply(key@, counter@, data@),
        r@.len() == data@.len(),
{
    let mut buf = data.to_vec();
    ctr::Ctr32BE::<aes::Aes128>::new_from_slices(key, counter).unwrap().apply_keystream(&mut buf);
    buf
}

/// AES-192-CTR with a 32-bit big-endian counter: `data` XORed with the
/// keystream that starts at the counter block `counter`.
pub uninterp spec fn aes192_ctr32_apply(key: Seq<u8>, counter: Seq<u8>, data: Seq<u8>) -> Seq<u8>;

/// `ctr::Ctr32BE::<aes::Aes192>::apply_keystream`; the result is as long as
/// the data.
/// The keystream of the 32-bit counter runs out after `u32::MAX` blocks,
/// where the crate panics; `requires` keeps the data within it.
#[verifier::external_body]
fn aes192_ctr32(key: &[u8], counter: &[u8], data: &[u8]) -> (r: Vec<u8>)
    requires
        key@.len() == 24,
        counter@.len() == 16,
        data@.len() <= 68719476720,
    ensures
        r@ == aes192_ctr32_apply(key@, counter@, data@),
        r@.len() == data@.len(),
{
    let mut buf = data.to_vec();
    ctr::Ctr32BE::<aes::Aes192>::new_from_slices(key, counter).unwrap().apply_keystream(&mut buf);
    buf
}

/// AES-256-CTR with a 32-bit big-endian counter: `data` XORed with the
/// keystream that starts at the counter block `counter`.
pub uninterp spec fn aes256_ctr32_apply(key: Seq<u8>, counter: Seq<u8>, data: Seq<u8>) -> Seq<u8>;

/// `ctr::Ctr32BE::<aes::Aes256>::apply_keystream`; the result is as long as
/// the data.
/// The keystream of the 32-bit counter runs out after `u32::MAX` blocks,
/// where the crate panics; `requires` keeps the data within it.
#[verifier::external_body]
fn aes256_ctr32(key: &[u8], counter: &[u8], data: &[u8]) -> (r: Vec<u8>)
    requires
        key@.len() == 32,
        counter@.len() == 16,
        data@.len() <= 68719476720,
    ensures
        r@ == aes256_ctr32_apply(key@, counter@, data@),
        r@.len() == data@.len(),
{
    let mut buf = data.to_vec();
    ctr::Ctr32BE::<aes::Aes256>::new_from_slices(key, counter).unwrap().apply_keystream(&mut buf);
    buf
}

/// AES-128-CTR with a 64-bit big-endian counter: `data` XORed with the
/// keystream that starts at the counter block `counter`.
pub uninterp spec fn aes128_ctr64_apply(key: Seq<u8>, counter: Seq<u8>, data: Seq<u8>) -> Seq<u8>;

/// `ctr::Ctr64BE::<aes::Aes128>::apply_keystream`; the result is as long as
/// the data.
#[verifier::external_body]
fn aes128_ctr64(key: &[u8], counter: &[u8], data: &[u8]) -> (r: Vec<u8>)
    requires
        key@.len() == 16,
        counter@.len() == 16,
    ensures
        r@ == aes128_ctr64_apply(key@, counter@, data@),
        r@.len() == data@.len(),
{
    let mut buf = data.to_vec();
    ctr::Ctr64BE::<aes::Aes128>::new_from_slices(key, counter).unwrap().apply_keystream(&mut buf);
    buf
}

/// AES-192-CTR with a 64-bit big-endian counter: `data` XORed with the
/// keystream that starts at the counter block `counter`.
pub uninterp spec fn aes192_ctr64_apply(key: Seq<u8>, counter: Seq<u8>, data: Seq<u8>) -> Seq<u8>;

/// `ctr::Ctr64BE::<aes::Aes192>::apply_keystream`; the result is as long as
/// the data.
#[verifier::external_body]
fn aes192_ctr64(key: &[u8], counter: &[u8], data: &[u8]) -> (r: Vec<u8>)
    requires
        key@.len() == 24,
        counter@.len() == 16,
    ensures
        r@ == aes192_ctr64_apply(key@, counter@, data@),
        r@.len() == data@.len(),
{
    let mut buf = data.to_vec();
    ctr::Ctr64BE::<aes::Aes192>::new_from_slices(key, counter).unwrap().apply_keystream(&mut buf);
    buf
}

/// AES-256-CTR with a 64-bit big-endian counter: `data` XORed with the
/// keystream that starts at the counter block `counter`.
pub uninterp spec fn aes256_ctr64_apply(key: Seq<u8>, counter: Seq<u8>, data: Seq<u8>) -> Seq<u8>;

/// `ctr::Ctr64BE::<aes::Aes256>::apply_keystream`; the result is as long as
/// the data.
#[verifier::external_body]
fn aes256_ctr64(key: &[u8], counter: &[u8], data: &[u8]) -> (r: Vec<u8>)
    requires
        key@.len() == 32,
        counter@.len() == 16,
    ensures
        r@ == aes256_ctr64_apply(key@, counter@, data@),
        r@.len() == data@.len(),
{
    let mut buf = data.to_vec();
    ctr::Ctr64BE::<aes::Aes256>::new_from_slices(key, counter).unwrap().apply_keystream(&mut buf);
    buf
}

/// AES-128-CTR with a 128-bit big-endian counter: `data` XORed with the
/// keystream that starts at the counter block `counter`.
pub uninterp spec fn aes128_ctr128_apply(key: Seq<u8>, counter: Seq<u8>, data: Seq<u8>) -> Seq<u8>;

/// `ctr::Ctr128BE::<aes::Aes128>::apply_keystream`; the result is as long as
/// the data.
#[verifier::external_body]
fn aes128_ctr128(key: &[u8], counter: &[u8], data: &[u8]) -> (r: Vec<u8>)
    requires
        key@.len() == 16,
        counter@.len() == 16,
    ensures
        r@ == aes128_ctr128_apply(key@, counter@, data@),
        r@.len() == data@.len(),
{
    let mut buf = data.to_vec();
    ctr::Ctr128BE::<aes::Aes128>::new_from_slices(key, counter).unwrap().apply_keystream(&mut buf);
    buf
}

/// AES-192-CTR with a 128-bit big-endian counter: `data` XORed with the
/// keystream that starts at the counter block `counter`.
pub uninterp spec fn aes192_ctr128_apply(key: Seq<u8>, counter: Seq<u8>, data: Seq<u8>) -> Seq<u8>;

/// `ctr::Ctr128BE::<aes::Aes192>::apply_keystream`; the result is as long as
/// the data.
#[verifier::external_body]
fn aes192_ctr128(key: &[u8], counter: &[u8], data: &[u8]) -> (r: Vec<u8>)
    requires
        key@.len() == 24,
        counter@.len() == 16,
    ensures
        r@ == aes192_ctr128_apply(key@, counter@, data@),
        r@.len() == data@.len(),
{
    let mut buf = data.to_vec();
    ctr::Ctr128BE::<aes::Aes192>::new_from_slices(key, counter).unwrap().apply_keystream(&mut buf);
    buf
}

/// AES-256-CTR with a 128-bit big-endian counter: `data` XORed with the
/// keystream that starts at the counter block `counter`.
pub uninterp spec fn aes256_ctr128_apply(key: Seq<u8>, counter: Seq<u8>, data: Seq<u8>) -> Seq<u8>;

/// `ctr::Ctr128BE::<aes::Aes256>::apply_keystream`; the result is as long as
/// the data.
#[verifier::external_body]
fn aes256_ctr128(key: &[u8], counter: &[u8], data: &[u8]) -> (r: Vec<u8>)
    requires
        key@.len() == 32,
        counter@.len() == 16,
    ensures
        r@ == aes256_ctr128_apply(key@, counter@, data@),
        r@.len() == data@.len(),
{
    let mut buf = data.to_vec();
    ctr::Ctr128BE::<aes::Aes256>::new_from_slices(key, counter).unwrap().apply_keystream(&mut buf);
    buf
}

/// The PBKDF2-HMAC-SHA-1 key of `length` bytes.
pub uninterp spec fn pbkdf2_sha1_of(password: Seq<u8>, salt: Seq<u8>, iterations: u32, length: u32) -> Seq<u8>;

/// `pbkdf2::pbkdf2_hmac::<sha1::Sha1>` into a buffer of `length` bytes.
#[verifier::external_body]
fn pbkdf2_sha1(password: &[u8], salt: &[u8], iterations: u32, length: u32) -> (r: Vec<u8>)
    ensures
        r@ == pbkdf2_sha1_of(password@, salt@, iterations, length),
        r@.len() == length,
{
    let mut dk = vec![0u8; length as usize];
    pbkdf2::pbkdf2_hmac::<sha1::Sha1>(password, salt, iterations, &mut dk);
    dk
}

/// The PBKDF2-HMAC-SHA-256 key of `length` bytes.
pub uninterp spec fn pbkdf2_sha256_of(password: Seq<u8>, salt: Seq<u8>, iterations: u32, length: u32) -> Seq<u8>;

/// `pbkdf2::pbkdf2_hmac::<sha2::Sha256>` into a buffer of `length` bytes.
#[verifier::external_body]
fn pbkdf2_sha256(password: &[u8], salt: &[u8], iterations: u32, length: u32) -> (r: Vec<u8>)
    ensures
        r@ == pbkdf2_sha256_of(password@, salt@, iterations, length),
        r@.len() == length,
{
    let mut dk = vec![0u8; length as usize];
    pbkdf2::pbkdf2_hmac::<sha2::Sha256>(password, salt, iterations, &mut dk);
    dk
}

/// The PBKDF2-HMAC-SHA-384 key of `length` bytes.
pub uninterp spec fn pbkdf2_sha384_of(password: Seq<u8>, salt: Seq<u8>, iterations: u32, length: u32) -> Seq<u8>;

/// `pbkdf2::pbkdf2_hmac::<sha2::Sha384>` into a buffer of `length` bytes.
#[verifier::external_body]
fn pbkdf2_sha384(password: &[u8], salt: &[u8], iterations: u32, length: u32) -> (r: Vec<u8>)
    ensures
        r@ == pbkdf2_sha384_of(password@, salt@, iterations, length),
        r@.len() == length,
{
    let mut dk = vec![0u8; length as usize];
    pbkdf2::pbkdf2_hmac::<sha2::Sha384>(password, salt, iterations, &mut dk);
    dk
}

/// The PBKDF2-HMAC-SHA-512 key of `length` bytes.
pub uninterp spec fn pbkdf2_sha512_of(password: Seq<u8>, salt: Seq<u8>, iterations: u32, length: u32) -> Seq<u8>;

/// `pbkdf2::pbkdf2_hmac::<sha2::Sha512>` into a buffer of `length` bytes.
#[verifier::external_body]
fn pbkdf2_sha512(password: &[u8], salt: &[u8], iterations: u32, length: u32) -> (r: Vec<u8>)
    ensures
        r@ == pbkdf2_sha512_of(password@, salt@, iterations, length),
        r@.len() == length,
{
    let mut dk = vec![0u8; length as usize];
    pbkdf2::pbkdf2_hmac::<sha2::Sha512>(password, salt, iterations, &mut dk);
    dk
}

/// The HKDF-SHA-1 output key of `length` bytes, `None` where `length`
/// exceeds 255 times the hash length.
pub uninterp spec fn hkdf_sha1_of(ikm: Seq<u8>, salt: Seq<u8>, info: Seq<u8>, length: u32) -> Option<Seq<u8>>;

/// `Hkdf::<sha1::Sha1>::new(Some(salt), ikm).expand(info, ..)` into `length`
/// bytes, which fails exactly when `length` exceeds 255 * 20.
#[verifier::external_body]
fn hkdf_sha1(ikm: &[u8], salt: &[u8], info: &[u8], length: u32) -> (r: Option<Vec<u8>>)
    ensures
        r is Some <==> length <= 255 * 20,
        match r {
            Some(k) => hkdf_sha1_of(ikm@, salt@, info@, length) == Some(k@) && k@.len() == length,
            None => hkdf_sha1_of(ikm@, salt@, info@, length) is None,
        },
{
    let mut okm = vec![0u8; length as usize];
    match hkdf::Hkdf::<sha1::Sha1>::new(Some(salt), ikm).expand(info, &mut okm) {
        Ok(()) => Some(okm),
        Err(_) => None,
    }
}

/// The HKDF-SHA-256 output key of `length` bytes, `None` where `length`
/// exceeds 255 times the hash length.
pub uninterp spec fn hkdf_sha256_of(ikm: Seq<u8>, salt: Seq<u8>, info: Seq<u8>, length: u32) -> Option<Seq<u8>>;

/// `Hkdf::<sha2::Sha256>::new(Some(salt), ikm).expand(info, ..)` into `length`
/// bytes, which fails exactly when `length` exceeds 255 * 32.
#[verifier::external_body]
fn hkdf_sha256(ikm: &[u8], salt: &[u8], info: &[u8], length: u32) -> (r: Option<Vec<u8>>)
    ensures
        r is Some <==> length <= 255 * 32,
        match r {
            Some(k) => hkdf_sha256_of(ikm@, salt@, info@, length) == Some(k@) && k@.len() == length,
            None => hkdf_sha256_of(ikm@, salt@, info@, length) is None,
        },
{
    let mut okm = vec![0u8; length as usize];
    match hkdf::Hkdf::<sha2::Sha256>::new(Some(salt), ikm).expand(info, &mut okm) {
        Ok(()) => Some(okm),
        Err(_) => None,
    }
}

/// The HKDF-SHA-384 output key of `length` bytes, `None` where `length`
/// exceeds 255 times the hash length.
pub uninterp spec fn hkdf_sha384_of(ikm: Seq<u8>, salt: Seq<u8>, info: Seq<u8>, length: u32) -> Option<Seq<u8>>;

/// `Hkdf::<sha2::Sha384>::new(Some(salt), ikm).expand(info, ..)` into `length`
/// bytes, which fails exactly when `length` exceeds 255 * 48.
#[verifier::external_body]
fn hkdf_sha384(ikm: &[u8], salt: &[u8], info: &[u8], length: u32) -> (r: Option<Vec<u8>>)
    ensures
        r is Some <==> length <= 255 * 48,
        match r {
            Some(k) => hkdf_sha384_of(ikm@, salt@, info@, length) == Some(k@) && k@.len() == length,
            None => hkdf_sha384_of(ikm@, salt@, info@, length) is None,
        },
{
    let mut okm = vec![0u8; length as usize];
    match hkdf::Hkdf::<sha2::Sha384>::new(Some(salt), ikm).expand(info, &mut okm) {
        Ok(()) => Some(okm),
        Err(_) => None,
    }
}

/// The HKDF-SHA-512 output key of `length` bytes, `None` where `length`
/// exceeds 255 times the hash length.
pub uninterp spec fn hkdf_sha512_of(ikm: Seq<u8>, salt: Seq<u8>, info: Seq<u8>, length: u32) -> Option<Seq<u8>>;

/// `Hkdf::<sha2::Sha512>::new(Some(salt), ikm).expand(info, ..)` into `length`
/// bytes, which fails exactly when `length` exceeds 255 * 64.
#[verifier::external_body]
fn hkdf_sha512(ikm: &[u8], salt: &[u8], info: &[u8], length: u32) -> (r: Option<Vec<u8>>)
    ensures
        r is Some <==> length <= 255 * 64,
        match r {
            Some(k) => hkdf_sha512_of(ikm@, salt@, info@, length) == Some(k@) && k@.len() == length,
            None => hkdf_sha512_of(ikm@, salt@, info@, length) is None,
        },
{
    let mut okm = vec![0u8; length as usize];
    match hkdf::Hkdf::<sha2::Sha512>::new(Some(salt), ikm).expand(info, &mut okm) {
        Ok(()) => Some(okm),
        Err(_) => None,
    }
}

// ---------------------------------------------------------------------------
// The operations
// ---------------------------------------------------------------------------

/// The view of an operation's result: the bytes, or the error message.
pub open spec fn rview(r: Result<Vec<u8>, String>) -> Result<Seq<u8>, Seq<char>> {
    match r {
        Ok(v) => Ok(v@),
        Err(e) => Err(e@),
    }
}

/// The digest that `alg` (compared in ASCII upper case) selects: SHA-1,
/// SHA-256, SHA-384, SHA-512, SHA-512/224 or SHA-512/256; empty for any other
/// name.
pub open spec fn digest_result(alg: Seq<char>, data: Seq<u8>) -> Seq<u8> {
    let a = alg.map_values(|c: char| ascii_upper(c));
    if a == "SHA-1"@ {
        sha1_of(data)
    } else if a == "SHA-256"@ {
        sha256_of(data)
    } else if a == "SHA-384"@ {
        sha384_of(data)
    } else if a == "SHA-512"@ {
        sha512_of(data)
    } else if a == "SHA-512/224"@ {
        sha512_224_of(data)
    } else if a == "SHA-512/256"@ {
        sha512_256_of(data)
    } else {
        Seq::empty()
    }
}

/// Law: each digest name selects its own algorithm, whatever the case of
/// its letters: SHA-1, SHA-256, SHA-384, SHA-512, SHA-512/224 and
/// SHA-512/256 give exactly those digests of the data (SHA-512/256 is the
/// truncated variant with its own initial values, not a cut SHA-512).
pub proof fn law_digest_names(alg: Seq<char>, data: Seq<u8>)
    ensures
        alg.map_values(|c: char| ascii_upper(c)) == "SHA-1"@ ==> digest_result(alg, data) == sha1_of(data),
        alg.map_values(|c: char| ascii_upper(c)) == "SHA-256"@ ==> digest_result(alg, data) == sha256_of(data),
        alg.map_values(|c: char| ascii_upper(c)) == "SHA-384"@ ==> digest_result(alg, data) == sha384_of(data),
        alg.map_values(|c: char| ascii_upper(c)) == "SHA-512"@ ==> digest_result(alg, data) == sha512_of(data),
        alg.map_values(|c: char| ascii_upper(c)) == "SHA-512/224"@ ==> digest_result(alg, data) == sha512_224_of(data),
        alg.map_values(|c: char| ascii_upper(c)) == "SHA-512/256"@ ==> digest_result(alg, data) == sha512_256_of(data),
{
    reveal_strlit("SHA-1");
    reveal_strlit("SHA-256");
    reveal_strlit("SHA-384");
    reveal_strlit("SHA-512");
    reveal_strlit("SHA-512/224");
    reveal_strlit("SHA-512/256");
    let a = alg.map_values(|c: char| ascii_upper(c));
    assert(a.len() == 5 ==> a != "SHA-256"@ && a != "SHA-384"@ && a != "SHA-512"@ && a != "SHA-512/224"@
        && a != "SHA-512/256"@);
    if a == "SHA-256"@ {
        assert(a[4] == '2' && a[5] == '5');
        assert(a != "SHA-1"@);
    }
    if a == "SHA-384"@ {
        assert(a[4] == '3');
        assert(a != "SHA-1"@ && a != "SHA-256"@);
    }
    if a == "SHA-512"@ {
        assert(a[4] == '5' && a[5] == '1');
        assert(a != "SHA-1"@ && a != "SHA-256"@ && a != "SHA-384"@);
    }
    if a == "SHA-512/224"@ {
        assert(a.len() == 11 && a[8] == '2' && a[9] == '2');
        assert(a != "SHA-1"@ && a != "SHA-256"@ && a != "SHA-384"@ && a != "SHA-512"@);
    }
    if a == "SHA-512/256"@ {
        assert(a.len() == 11 && a[8] == '2' && a[9] == '5');
        assert(a != "SHA-1"@ && a != "SHA-256"@ && a != "SHA-384"@ && a != "SHA-512"@ && a != "SHA-512/224"@);
    }
}

/// `crypto.subtle.digest`: the digest of `data` under `algorithm`.
pub fn op_subtle_digest_impl(algorithm: &str, data: &[u8]) -> (r: Vec<u8>)
    ensures
        r@ == digest_result(algorithm@, data@),
{
    let a = to_ascii_upper(&chars_of(algorithm));
    if eq_str(&a, "SHA-1") {
        sha1_digest(data)
    } else if eq_str(&a, "SHA-256") {
        sha256_digest(data)
    } else if eq_str(&a, "SHA-384") {
        sha384_digest(data)
    } else if eq_str(&a, "SHA-512") {
        sha512_digest(data)
    } else if eq_str(&a, "SHA-512/224") {
        sha512_224_digest(data)
    } else if eq_str(&a, "SHA-512/256") {
        sha512_256_digest(data)
    } else {
        Vec::new()
    }
}

/// The HMAC that `hash` (compared exactly) selects.
pub open spec fn hmac_result(hash: Seq<char>, key: Seq<u8>, data: Seq<u8>) -> Result<Seq<u8>, Seq<char>> {
    if hash == "SHA-1"@ {
        Ok(hmac_sha1_of(key, data))
    } else if hash == "SHA-256"@ {
        Ok(hmac_sha256_of(key, data))
    } else if hash == "SHA-384"@ {
        Ok(hmac_sha384_of(key, data))
    } else if hash == "SHA-512"@ {
        Ok(hmac_sha512_of(key, data))
    } else {
        Err("unsupported HMAC hash"@)
    }
}

/// `crypto.subtle.sign` with HMAC.
pub fn op_subtle_hmac_impl(hash: &str, key: &[u8], data: &[u8]) -> (r: Result<Vec<u8>, String>)
    ensures
        rview(r) == hmac_result(hash@, key@, data@),
{
    let h = chars_of(hash);
    if eq_str(&h, "SHA-1") {
        Ok(hmac_sha1(key, data))
    } else if eq_str(&h, "SHA-256") {
        Ok(hmac_sha256(key, data))
    } else if eq_str(&h, "SHA-384") {
        Ok(hmac_sha384(key, data))
    } else if eq_str(&h, "SHA-512") {
        Ok(hmac_sha512(key, data))
    } else {
        Err(string_from("unsupported HMAC hash"))
    }
}

/// The result of an AES-GCM request: the IV must be 12 bytes, then the key
/// 16, 24 or 32 bytes; a decryption that does not authenticate fails.
pub open spec fn aes_gcm_result(encrypt: bool, key: Seq<u8>, iv: Seq<u8>, aad: Seq<u8>, data: Seq<u8>) -> Result<Seq<u8>, Seq<char>> {
    if iv.len() != 12 {
        Err("AES-GCM requires a 96-bit (12-byte) IV"@)
    } else if key.len() != 16 && key.len() != 24 && key.len() != 32 {
        Err("AES-GCM key must be 128, 192, or 256 bits"@)
    } else {
        let r = if encrypt {
            if key.len() == 16 {
                aes128_gcm_seal(key, iv, aad, data)
            } else if key.len() == 24 {
                aes192_gcm_seal(key, iv, aad, data)
            } else {
                aes256_gcm_seal(key, iv, aad, data)
            }
        } else {
            if key.len() == 16 {
                aes128_gcm_open(key, iv, aad, data)
            } else if key.len() == 24 {
                aes192_gcm_open(key, iv, aad, data)
            } else {
                aes256_gcm_open(key, iv, aad, data)
            }
        };
        match r {
            Some(v) => Ok(v),
            None => if encrypt {
                Err("aead::Error"@)
            } else {
                Err("AES-GCM decryption failed: authentication tag mismatch"@)
            },
        }
    }
}

/// `crypto.subtle.encrypt` / `decrypt` with AES-GCM.
pub fn op_subtle_aes_gcm_impl(encrypt: bool, key: &[u8], iv: &[u8], aad: &[u8], data: &[u8]) -> (r: Result<Vec<u8>, String>)
    ensures
        rview(r) == aes_gcm_result(encrypt, key@, iv@, aad@, data@),
{
    if iv.len() != 12 {
        return Err(string_from("AES-GCM requires a 96-bit (12-byte) IV"));
    }
    let kl = key.len();
    if kl != 16 && kl != 24 && kl != 32 {
        return Err(string_from("AES-GCM key must be 128, 192, or 256 bits"));
    }
    if encrypt {
        if kl == 16 {
            aes128_gcm_encrypt(key, iv, aad, data)
        } else if kl == 24 {
            aes192_gcm_encrypt(key, iv, aad, data)
        } else {
            aes256_gcm_encrypt(key, iv, aad, data)
        }
    } else {
        let r = if kl == 16 {
            aes128_gcm_decrypt(key, iv, aad, data)
        } else if kl == 24 {
            aes192_gcm_decrypt(key, iv, aad, data)
        } else {
            aes256_gcm_decrypt(key, iv, aad, data)
        };
        match r {
            Some(p) => Ok(p),
            None => Err(string_from("AES-GCM decryption failed: authentication tag mismatch")),
        }
    }
}

/// The result of an AES-CBC request: the IV must be 16 bytes, then the key
/// 16, 24 or 32 bytes; a decryption with invalid padding fails.
pub open spec fn aes_cbc_result(encrypt: bool, key: Seq<u8>, iv: Seq<u8>, data: Seq<u8>) -> Result<Seq<u8>, Seq<char>> {
    if iv.len() != 16 {
        Err("AES-CBC requires a 16-byte IV"@)
    } else if key.len() != 16 && key.len() != 24 && key.len() != 32 {
        Err("AES-CBC key must be 128, 192, or 256 bits"@)
    } else if encrypt {
        Ok(
            if key.len() == 16 {
                aes128_cbc_seal(key, iv, data)
            } else if key.len() == 24 {
                aes192_cbc_seal(key, iv, data)
            } else {
                aes256_cbc_seal(key, iv, data)
            },
        )
    } else {
        let r = if key.len() == 16 {
            aes128_cbc_open(key, iv, data)
        } else if key.len() == 24 {
            aes192_cbc_open(key, iv, data)
        } else {
            aes256_cbc_open(key, iv, data)
        };
        match r {
            Some(v) => Ok(v),
            None => Err("AES-CBC decryption failed: invalid padding"@),
        }
    }
}

/// `crypto.subtle.encrypt` / `decrypt` with AES-CBC.
pub fn op_subtle_aes_cbc_impl(encrypt: bool, key: &[u8], iv: &[u8], data: &[u8]) -> (r: Result<Vec<u8>, String>)
    ensures
        rview(r) == aes_cbc_result(encrypt, key@, iv@, data@),
{
    if iv.len() != 16 {
        return Err(string_from("AES-CBC requires a 16-byte IV"));
    }
    let kl = key.len();
    if kl != 16 && kl != 24 && kl != 32 {
        return Err(string_from("AES-CBC key must be 128, 192, or 256 bits"));
    }
    if encrypt {
        if kl == 16 {
            Ok(aes128_cbc_encrypt(key, iv, data))
        } else if kl == 24 {
            Ok(aes192_cbc_encrypt(key, iv, data))
        } else {
            Ok(aes256_cbc_encrypt(key, iv, data))
        }
    } else {
        let r = if kl == 16 {
            aes128_cbc_decrypt(key, iv, data)
        } else if kl == 24 {
            aes192_cbc_decrypt(key, iv, data)
        } else {
            aes256_cbc_decrypt(key, iv, data)
        };
        match r {
            Some(p) => Ok(p),
            None => Err(string_from("AES-CBC decryption failed: invalid padding")),
        }
    }
}

/// The result of an AES-CTR request: the counter block must be 16 bytes,
/// the counter length 128, 64 or 32 bits, then the key 16, 24 or 32 bytes.
pub open spec fn aes_ctr_result(key: Seq<u8>, counter: Seq<u8>, counter_length: u32, data: Seq<u8>) -> Result<Seq<u8>, Seq<char>> {
    let bad_key = key.len() != 16 && key.len() != 24 && key.len() != 32;
    if counter.len() != 16 {
        Err("AES-CTR requires a 16-byte counter block"@)
    } else if counter_length != 128 && counter_length != 64 && counter_length != 32 {
        Err("AES-CTR supports counter lengths of 32, 64, or 128 bits"@)
    } else if bad_key {
        Err("AES-CTR key must be 128, 192, or 256 bits"@)
    } else if counter_length == 128 {
        Ok(
            if key.len() == 16 {
                aes128_ctr128_apply(key, counter, data)
            } else if key.len() == 24 {
                aes192_ctr128_apply(key, counter, data)
            } else {
                aes256_ctr128_apply(key, counter, data)
            },
        )
    } else if counter_length == 64 {
        Ok(
            if key.len() == 16 {
                aes128_ctr64_apply(key, counter, data)
            } else if key.len() == 24 {
                aes192_ctr64_apply(key, counter, data)
            } else {
                aes256_ctr64_apply(key, counter, data)
            },
        )
    } else {
        Ok(
            if key.len() == 16 {
                aes128_ctr32_apply(key, counter, data)
            } else if key.len() == 24 {
                aes192_ctr32_apply(key, counter, data)
            } else {
                aes256_ctr32_apply(key, counter, data)
            },
        )
    }
}

/// The most data a 32-bit AES-CTR counter can encrypt: `u32::MAX` blocks.
pub open spec fn ctr32_data_limit() -> nat {
    68719476720
}

/// The most data AES-CTR with a 32-bit counter can take, for callers that
/// check it before a call.
pub fn ctr32_data_limit_exec() -> (r: u64)
    ensures
        r == ctr32_data_limit(),
{
    68719476720
}

/// `crypto.subtle.encrypt` / `decrypt` with AES-CTR. With a 32-bit counter
/// the data must fit in `u32::MAX` blocks (the cipher panics beyond).
pub fn op_subtle_aes_ctr_impl(key: &[u8], counter: &[u8], counter_length: u32, data: &[u8]) -> (r: Result<Vec<u8>, String>)
    requires
        counter_length == 32 ==> data@.len() <= ctr32_data_limit(),
    ensures
        rview(r) == aes_ctr_result(key@, counter@, counter_length, data@),
{
    if counter.len() != 16 {
        return Err(string_from("AES-CTR requires a 16-byte counter block"));
    }
    if counter_length != 128 && counter_length != 64 && counter_length != 32 {
        return Err(string_from("AES-CTR supports counter lengths of 32, 64, or 128 bits"));
    }
    let kl = key.len();
    if kl != 16 && kl != 24 && kl != 32 {
        return Err(string_from("AES-CTR key must be 128, 192, or 256 bits"));
    }
    if counter_length == 128 {
        if kl == 16 {
            Ok(aes128_ctr128(key, counter, data))
        } else if kl == 24 {
            Ok(aes192_ctr128(key, counter, data))
        } else {
            Ok(aes256_ctr128(key, counter, data))
        }
    } else if counter_length == 64 {
        if kl == 16 {
            Ok(aes128_ctr64(key, counter, data))
        } else if kl == 24 {
            Ok(aes192_ctr64(key, counter, data))
        } else {
            Ok(aes256_ctr64(key, counter, data))
        }
    } else {
        if kl == 16 {
            Ok(aes128_ctr32(key, counter, data))
        } else if kl == 24 {
            Ok(aes192_ctr32(key, counter, data))
        } else {
            Ok(aes256_ctr32(key, counter, data))
        }
    }
}

/// The PBKDF2 key that `hash` (compared exactly) selects.
pub open spec fn pbkdf2_result(hash: Seq<char>, password: Seq<u8>, salt: Seq<u8>, iterations: u32, length: u32) -> Result<Seq<u8>, Seq<char>> {
    if hash == "SHA-1"@ {
        Ok(pbkdf2_sha1_of(password, salt, iterations, length))
    } else if hash == "SHA-256"@ {
        Ok(pbkdf2_sha256_of(password, salt, iterations, length))
    } else if hash == "SHA-384"@ {
        Ok(pbkdf2_sha384_of(password, salt, iterations, length))
    } else if hash == "SHA-512"@ {
        Ok(pbkdf2_sha512_of(password, salt, iterations, length))
    } else {
        Err("unsupported PBKDF2 hash"@)
    }
}

/// `crypto.subtle.deriveBits` with PBKDF2.
pub fn op_subtle_pbkdf2_impl(hash: &str, password: &[u8], salt: &[u8], iterations: u32, length: u32) -> (r: Result<Vec<u8>, String>)
    ensures
        rview(r) == pbkdf2_result(hash@, password@, salt@, iterations, length),
{
    let h = chars_of(hash);
    if eq_str(&h, "SHA-1") {
        Ok(pbkdf2_sha1(password, salt, iterations, length))
    } else if eq_str(&h, "SHA-256") {
        Ok(pbkdf2_sha256(password, salt, iterations, length))
    } else if eq_str(&h, "SHA-384") {
        Ok(pbkdf2_sha384(password, salt, iterations, length))
    } else if eq_str(&h, "SHA-512") {
        Ok(pbkdf2_sha512(password, salt, iterations, length))
    } else {
        Err(string_from("unsupported PBKDF2 hash"))
    }
}

/// The HKDF key that `hash` (compared exactly) selects; too long a key is
/// refused.
pub open spec fn hkdf_result(hash: Seq<char>, ikm: Seq<u8>, salt: Seq<u8>, info: Seq<u8>, length: u32) -> Result<Seq<u8>, Seq<char>> {
    let r = if hash == "SHA-1"@ {
        Some(hkdf_sha1_of(ikm, salt, info, length))
    } else if hash == "SHA-256"@ {
        Some(hkdf_sha256_of(ikm, salt, info, length))
    } else if hash == "SHA-384"@ {
        Some(hkdf_sha384_of(ikm, salt, info, length))
    } else if hash == "SHA-512"@ {
        Some(hkdf_sha512_of(ikm, salt, info, length))
    } else {
        None
    };
    match r {
        None => Err("unsupported HKDF hash"@),
        Some(Some(k)) => Ok(k),
        Some(None) => Err("HKDF: requested key length is too long"@),
    }
}

fn hkdf_reply(r: Option<Vec<u8>>) -> (out: Result<Vec<u8>, String>)
    ensures
        match r {
            Some(k) => rview(out) == Ok::<Seq<u8>, Seq<char>>(k@),
            None => rview(out) == Err::<Seq<u8>, Seq<char>>("HKDF: requested key length is too long"@),
        },
{
    match r {
        Some(k) => Ok(k),
        None => Err(string_from("HKDF: requested key length is too long")),
    }
}

/// `crypto.subtle.deriveBits` with HKDF.
pub fn op_subtle_hkdf_impl(hash: &str, ikm: &[u8], salt: &[u8], info: &[u8], length: u32) -> (r: Result<Vec<u8>, String>)
    ensures
        rview(r) == hkdf_result(hash@, ikm@, salt@, info@, length),
{
    let h = chars_of(hash);
    if eq_str(&h, "SHA-1") {
        hkdf_reply(hkdf_sha1(ikm, salt, info, length))
    } else if eq_str(&h, "SHA-256") {
        hkdf_reply(hkdf_sha256(ikm, salt, info, length))
    } else if eq_str(&h, "SHA-384") {
        hkdf_reply(hkdf_sha384(ikm, salt, info, length))
    } else if eq_str(&h, "SHA-512") {
        hkdf_reply(hkdf_sha512(ikm, salt, info, length))
    } else {
        Err(string_from("unsupported HKDF hash"))
    }
}

/// `getrandom::getrandom` into a buffer of `len` bytes: the bytes come from
/// the operating system's generator, so nothing is claimed of their values;
/// the error is `getrandom`'s own message. An empty buffer is filled
/// without asking the generator, so it always succeeds.
#[verifier::external_body]
fn fill_random(len: u32) -> (r: Result<Vec<u8>, String>)
    ensures
        len == 0 ==> r is Ok,
        match r {
            Ok(v) => v@.len() == len,
            Err(_) => true,
        },
{
    let mut buf = vec![0u8; len as usize];
    match getrandom::getrandom(&mut buf) {
        Ok(()) => Ok(buf),
        Err(e) => Err(e.to_string()),
    }
}

/// `crypto.getRandomValues`: `len` random bytes, or the generator's error
/// prefixed with `getrandom failed: `. Zero bytes are always had.
pub fn op_random_bytes_impl(len: u32) -> (r: Result<Vec<u8>, String>)
    ensures
        len == 0 ==> (r matches Ok(v) && v@.len() == 0),
        match r {
            Ok(v) => v@.len() == len,
            Err(e) => exists|m: Seq<char>| e@ == "getrandom failed: "@ + m,
        },
{
    match fill_random(len) {
        Ok(v) => Ok(v),
        Err(e) => {
            let mut m = string_from("getrandom failed: ");
            push_str(&mut m, e.as_str());
            Err(m)
        },
    }
}

// ---------------------------------------------------------------------------
// The dispatcher
// ---------------------------------------------------------------------------

/// Argument `i` as a string, or empty where it is missing or not a string.
pub open spec fn arg_str(a: Seq<JsonArgView>, i: int) -> Seq<char> {
    if 0 <= i < a.len() {
        match a[i] {
            JsonArgView::Str(s) => s,
            _ => Seq::empty(),
        }
    } else {
        Seq::empty()
    }
}

/// Argument `i` decoded from base64, or empty where it is missing, not a
/// string, or not base64.
pub open spec fn arg_bytes(a: Seq<JsonArgView>, i: int) -> Seq<u8> {
    if 0 <= i < a.len() {
        match a[i] {
            JsonArgView::Str(s) => match base64_decoded(s) {
                Some(b) => b,
                None => Seq::empty(),
            },
            _ => Seq::empty(),
        }
    } else {
        Seq::empty()
    }
}

/// Argument `i` as a boolean, or `default`.
pub open spec fn arg_bool(a: Seq<JsonArgView>, i: int, default: bool) -> bool {
    if 0 <= i < a.len() {
        match a[i] {
            JsonArgView::Bool(b) => b,
            _ => default,
        }
    } else {
        default
    }
}

/// Argument `i` as an unsigned integer (or `default`), cut to 32 bits as
/// `as u32` cuts it.
pub open spec fn arg_u32(a: Seq<JsonArgView>, i: int, default: u64) -> u32 {
    let v = if 0 <= i < a.len() {
        match a[i] {
            JsonArgView::Num(Some(n)) => n,
            _ => default,
        }
    } else {
        default
    };
    v as u32
}

/// The result of crypto command `cmd` on the arguments `a`.
pub open spec fn dispatch_result(cmd: Seq<char>, a: Seq<JsonArgView>) -> Result<Seq<u8>, Seq<char>> {
    if cmd == "digest"@ {
        Ok(digest_result(arg_str(a, 0), arg_bytes(a, 1)))
    } else if cmd == "hmac"@ {
        hmac_result(arg_str(a, 0), arg_bytes(a, 1), arg_bytes(a, 2))
    } else if cmd == "aes_gcm"@ {
        aes_gcm_result(arg_bool(a, 0, true), arg_bytes(a, 1), arg_bytes(a, 2), arg_bytes(a, 3), arg_bytes(a, 4))
    } else if cmd == "aes_cbc"@ {
        aes_cbc_result(arg_bool(a, 0, true), arg_bytes(a, 1), arg_bytes(a, 2), arg_bytes(a, 3))
    } else if cmd == "aes_ctr"@ {
        aes_ctr_result(arg_bytes(a, 0), arg_bytes(a, 1), arg_u32(a, 2, 128), arg_bytes(a, 3))
    } else if cmd == "pbkdf2"@ {
        pbkdf2_result(arg_str(a, 0), arg_bytes(a, 1), arg_bytes(a, 2), arg_u32(a, 3, 1), arg_u32(a, 4, 0))
    } else if cmd == "hkdf"@ {
        hkdf_result(arg_str(a, 0), arg_bytes(a, 1), arg_bytes(a, 2), arg_bytes(a, 3), arg_u32(a, 4, 0))
    } else {
        Err("unknown crypto command: "@ + cmd)
    }
}

/// The four hash names are different texts.
proof fn lemma_hash_names_distinct()
    ensures
        "SHA-1"@ != "SHA-256"@,
        "SHA-1"@ != "SHA-384"@,
        "SHA-1"@ != "SHA-512"@,
        "SHA-256"@ != "SHA-384"@,
        "SHA-256"@ != "SHA-512"@,
        "SHA-384"@ != "SHA-512"@,
{
    reveal_strlit("SHA-1");
    reveal_strlit("SHA-256");
    reveal_strlit("SHA-384");
    reveal_strlit("SHA-512");
    assert("SHA-1"@.len() != "SHA-256"@.len());
    assert("SHA-1"@.len() != "SHA-384"@.len());
    assert("SHA-1"@.len() != "SHA-512"@.len());
    assert("SHA-256"@[4] != "SHA-384"@[4]);
    assert("SHA-256"@[4] != "SHA-512"@[4]);
    assert("SHA-384"@[4] != "SHA-512"@[4]);
}

/// Law: HMAC signs with the hash it is named for (the name compared
/// exactly): SHA-1, SHA-256, SHA-384 and SHA-512 give those HMACs of the
/// data under the key, and any other name is refused.
pub proof fn law_hmac_names(hash: Seq<char>, key: Seq<u8>, data: Seq<u8>)
    ensures
        hash == "SHA-1"@ ==> hmac_result(hash, key, data) == Ok::<Seq<u8>, Seq<char>>(hmac_sha1_of(key, data)),
        hash == "SHA-256"@ ==> hmac_result(hash, key, data) == Ok::<Seq<u8>, Seq<char>>(hmac_sha256_of(key, data)),
        hash == "SHA-384"@ ==> hmac_result(hash, key, data) == Ok::<Seq<u8>, Seq<char>>(hmac_sha384_of(key, data)),
        hash == "SHA-512"@ ==> hmac_result(hash, key, data) == Ok::<Seq<u8>, Seq<char>>(hmac_sha512_of(key, data)),
        hash != "SHA-1"@ && hash != "SHA-256"@ && hash != "SHA-384"@ && hash != "SHA-512"@
            ==> hmac_result(hash, key, data) == Err::<Seq<u8>, Seq<char>>("unsupported HMAC hash"@),
{
    lemma_hash_names_distinct();
}

/// Law: PBKDF2 derives with the hash it is named for (compared exactly),
/// and refuses any other name.
pub proof fn law_pbkdf2_names(hash: Seq<char>, password: Seq<u8>, salt: Seq<u8>, iterations: u32, length: u32)
    ensures
        hash == "SHA-1"@ ==> pbkdf2_result(hash, password, salt, iterations, length) == Ok::<Seq<u8>, Seq<char>>(
            pbkdf2_sha1_of(password, salt, iterations, length)),
        hash == "SHA-256"@ ==> pbkdf2_result(hash, password, salt, iterations, length) == Ok::<Seq<u8>, Seq<char>>(
            pbkdf2_sha256_of(password, salt, iterations, length)),
        hash == "SHA-384"@ ==> pbkdf2_result(hash, password, salt, iterations, length) == Ok::<Seq<u8>, Seq<char>>(
            pbkdf2_sha384_of(password, salt, iterations, length)),
        hash == "SHA-512"@ ==> pbkdf2_result(hash, password, salt, iterations, length) == Ok::<Seq<u8>, Seq<char>>(
            pbkdf2_sha512_of(password, salt, iterations, length)),
        hash != "SHA-1"@ && hash != "SHA-256"@ && hash != "SHA-384"@ && hash != "SHA-512"@
            ==> pbkdf2_result(hash, password, salt, iterations, length) == Err::<Seq<u8>, Seq<char>>("unsupported PBKDF2 hash"@),
{
    lemma_hash_names_distinct();
}

/// Law: HKDF expands with the hash it is named for (compared exactly),
/// giving the key where that hash can make one of `length` bytes and
/// refusing too long a key; any other name is refused.
pub proof fn law_hkdf_names(hash: Seq<char>, ikm: Seq<u8>, salt: Seq<u8>, info: Seq<u8>, length: u32)
    ensures
        hash == "SHA-1"@ ==> hkdf_result(hash, ikm, salt, info, length) == match hkdf_sha1_of(ikm, salt, info, length) {
            Some(k) => Ok::<Seq<u8>, Seq<char>>(k),
            None => Err("HKDF: requested key length is too long"@),
        },
        hash == "SHA-256"@ ==> hkdf_result(hash, ikm, salt, info, length) == match hkdf_sha256_of(ikm, salt, info, length) {
            Some(k) => Ok::<Seq<u8>, Seq<char>>(k),
            None => Err("HKDF: requested key length is too long"@),
        },
        hash == "SHA-384"@ ==> hkdf_result(hash, ikm, salt, info, length) == match hkdf_sha384_of(ikm, salt, info, length) {
            Some(k) => Ok::<Seq<u8>, Seq<char>>(k),
            None => Err("HKDF: requested key length is too long"@),
        },
        hash == "SHA-512"@ ==> hkdf_result(hash, ikm, salt, info, length) == match hkdf_sha512_of(ikm, salt, info, length) {
            Some(k) => Ok::<Seq<u8>, Seq<char>>(k),
            None => Err("HKDF: requested key length is too long"@),
        },
        hash != "SHA-1"@ && hash != "SHA-256"@ && hash != "SHA-384"@ && hash != "SHA-512"@
            ==> hkdf_result(hash, ikm, salt, info, length) == Err::<Seq<u8>, Seq<char>>("unsupported HKDF hash"@),
{
    lemma_hash_names_distinct();
}

/// Law: AES-GCM takes a 12-byte IV and a 16-, 24- or 32-byte key, and
/// runs AES-128, AES-192 or AES-256 by the key's length; encryption seals
/// and decryption opens (failing where the tag does not authenticate).
pub proof fn law_aes_gcm_sizes(encrypt: bool, key: Seq<u8>, iv: Seq<u8>, aad: Seq<u8>, data: Seq<u8>)
    ensures
        iv.len() != 12 ==> aes_gcm_result(encrypt, key, iv, aad, data) is Err,
        key.len() != 16 && key.len() != 24 && key.len() != 32 ==> aes_gcm_result(encrypt, key, iv, aad, data) is Err,
        iv.len() == 12 && key.len() == 16 && encrypt && aes128_gcm_seal(key, iv, aad, data) is Some
            ==> aes_gcm_result(encrypt, key, iv, aad, data) == Ok::<Seq<u8>, Seq<char>>(aes128_gcm_seal(key, iv, aad, data).unwrap()),
        iv.len() == 12 && key.len() == 24 && encrypt && aes192_gcm_seal(key, iv, aad, data) is Some
            ==> aes_gcm_result(encrypt, key, iv, aad, data) == Ok::<Seq<u8>, Seq<char>>(aes192_gcm_seal(key, iv, aad, data).unwrap()),
        iv.len() == 12 && key.len() == 32 && encrypt && aes256_gcm_seal(key, iv, aad, data) is Some
            ==> aes_gcm_result(encrypt, key, iv, aad, data) == Ok::<Seq<u8>, Seq<char>>(aes256_gcm_seal(key, iv, aad, data).unwrap()),
        iv.len() == 12 && key.len() == 16 && !encrypt ==> aes_gcm_result(encrypt, key, iv, aad, data) == match aes128_gcm_open(key, iv, aad, data) {
            Some(p) => Ok::<Seq<u8>, Seq<char>>(p),
            None => Err("AES-GCM decryption failed: authentication tag mismatch"@),
        },
        iv.len() == 12 && key.len() == 24 && !encrypt ==> aes_gcm_result(encrypt, key, iv, aad, data) == match aes192_gcm_open(key, iv, aad, data) {
            Some(p) => Ok::<Seq<u8>, Seq<char>>(p),
            None => Err("AES-GCM decryption failed: authentication tag mismatch"@),
        },
        iv.len() == 12 && key.len() == 32 && !encrypt ==> aes_gcm_result(encrypt, key, iv, aad, data) == match aes256_gcm_open(key, iv, aad, data) {
            Some(p) => Ok::<Seq<u8>, Seq<char>>(p),
            None => Err("AES-GCM decryption failed: authentication tag mismatch"@),
        },
{
}

/// Law: AES-CBC takes a 16-byte IV and a 16-, 24- or 32-byte key, and runs
/// AES-128, AES-192 or AES-256 by the key's length; encryption always
/// succeeds, decryption fails only on invalid padding.
pub proof fn law_aes_cbc_sizes(encrypt: bool, key: Seq<u8>, iv: Seq<u8>, data: Seq<u8>)
    ensures
        iv.len() != 16 ==> aes_cbc_result(encrypt, key, iv, data) is Err,
        key.len() != 16 && key.len() != 24 && key.len() != 32 ==> aes_cbc_result(encrypt, key, iv, data) is Err,
        iv.len() == 16 && key.len() == 16 && encrypt ==> aes_cbc_result(encrypt, key, iv, data) == Ok::<Seq<u8>, Seq<char>>(aes128_cbc_seal(key, iv, data)),
        iv.len() == 16 && key.len() == 24 && encrypt ==> aes_cbc_result(encrypt, key, iv, data) == Ok::<Seq<u8>, Seq<char>>(aes192_cbc_seal(key, iv, data)),
        iv.len() == 16 && key.len() == 32 && encrypt ==> aes_cbc_result(encrypt, key, iv, data) == Ok::<Seq<u8>, Seq<char>>(aes256_cbc_seal(key, iv, data)),
        iv.len() == 16 && key.len() == 16 && !encrypt ==> aes_cbc_result(encrypt, key, iv, data) == match aes128_cbc_open(key, iv, data) {
            Some(p) => Ok::<Seq<u8>, Seq<char>>(p),
            None => Err("AES-CBC decryption failed: invalid padding"@),
        },
        iv.len() == 16 && key.len() == 24 && !encrypt ==> aes_cbc_result(encrypt, key, iv, data) == match aes192_cbc_open(key, iv, data) {
            Some(p) => Ok::<Seq<u8>, Seq<char>>(p),
            None => Err("AES-CBC decryption failed: invalid padding"@),
        },
        iv.len() == 16 && key.len() == 32 && !encrypt ==> aes_cbc_result(encrypt, key, iv, data) == match aes256_cbc_open(key, iv, data) {
            Some(p) => Ok::<Seq<u8>, Seq<char>>(p),
            None => Err("AES-CBC decryption failed: invalid padding"@),
        },
{
}

/// Law: AES-CTR takes a 16-byte counter block and a 16-, 24- or 32-byte
/// key; the counter length (128, 64 or 32 bits) selects how much of the
/// block counts, and the key's length selects AES-128, AES-192 or AES-256.
pub proof fn law_aes_ctr_sizes(key: Seq<u8>, counter: Seq<u8>, counter_length: u32, data: Seq<u8>)
    ensures
        counter.len() != 16 ==> aes_ctr_result(key, counter, counter_length, data) is Err,
        counter_length != 128 && counter_length != 64 && counter_length != 32 ==> aes_ctr_result(key, counter, counter_length, data) is Err,
        key.len() != 16 && key.len() != 24 && key.len() != 32 ==> aes_ctr_result(key, counter, counter_length, data) is Err,
        counter.len() == 16 && key.len() == 16 && counter_length == 128 ==> aes_ctr_result(key, counter, counter_length, data) == Ok::<Seq<u8>, Seq<char>>(aes128_ctr128_apply(key, counter, data)),
        counter.len() == 16 && key.len() == 24 && counter_length == 128 ==> aes_ctr_result(key, counter, counter_length, data) == Ok::<Seq<u8>, Seq<char>>(aes192_ctr128_apply(key, counter, data)),
        counter.len() == 16 && key.len() == 32 && counter_length == 128 ==> aes_ctr_result(key, counter, counter_length, data) == Ok::<Seq<u8>, Seq<char>>(aes256_ctr128_apply(key, counter, data)),
        counter.len() == 16 && key.len() == 16 && counter_length == 64 ==> aes_ctr_result(key, counter, counter_length, data) == Ok::<Seq<u8>, Seq<char>>(aes128_ctr64_apply(key, counter, data)),
        counter.len() == 16 && key.len() == 24 && counter_length == 64 ==> aes_ctr_result(key, counter, counter_length, data) == Ok::<Seq<u8>, Seq<char>>(aes192_ctr64_apply(key, counter, data)),
        counter.len() == 16 && key.len() == 32 && counter_length == 64 ==> aes_ctr_result(key, counter, counter_length, data) == Ok::<Seq<u8>, Seq<char>>(aes256_ctr64_apply(key, counter, data)),
        counter.len() == 16 && key.len() == 16 && counter_length == 32 ==> aes_ctr_result(key, counter, counter_length, data) == Ok::<Seq<u8>, Seq<char>>(aes128_ctr32_apply(key, counter, data)),
        counter.len() == 16 && key.len() == 24 && counter_length == 32 ==> aes_ctr_result(key, counter, counter_length, data) == Ok::<Seq<u8>, Seq<char>>(aes192_ctr32_apply(key, counter, data)),
        counter.len() == 16 && key.len() == 32 && counter_length == 32 ==> aes_ctr_result(key, counter, counter_length, data) == Ok::<Seq<u8>, Seq<char>>(aes256_ctr32_apply(key, counter, data)),
{
}

/// Law: the crypto dispatcher runs the operation its command names, with
/// the arguments in their documented places (digest: algorithm, data;
/// hmac: hash, key, data; aes_gcm: encrypt, key, iv, aad, data; aes_cbc:
/// encrypt, key, iv, data; aes_ctr: key, counter, length, data; pbkdf2:
/// hash, password, salt, iterations, length; hkdf: hash, ikm, salt, info,
/// length), and refuses any other command by name.
pub proof fn law_dispatch_commands(cmd: Seq<char>, a: Seq<JsonArgView>)
    ensures
        cmd == "digest"@ ==> dispatch_result(cmd, a) == Ok::<Seq<u8>, Seq<char>>(digest_result(arg_str(a, 0), arg_bytes(a, 1))),
        cmd == "hmac"@ ==> dispatch_result(cmd, a) == hmac_result(arg_str(a, 0), arg_bytes(a, 1), arg_bytes(a, 2)),
        cmd == "aes_gcm"@ ==> dispatch_result(cmd, a) == aes_gcm_result(arg_bool(a, 0, true), arg_bytes(a, 1), arg_bytes(a, 2), arg_bytes(a, 3), arg_bytes(a, 4)),
        cmd == "aes_cbc"@ ==> dispatch_result(cmd, a) == aes_cbc_result(arg_bool(a, 0, true), arg_bytes(a, 1), arg_bytes(a, 2), arg_bytes(a, 3)),
        cmd == "aes_ctr"@ ==> dispatch_result(cmd, a) == aes_ctr_result(arg_bytes(a, 0), arg_bytes(a, 1), arg_u32(a, 2, 128), arg_bytes(a, 3)),
        cmd == "pbkdf2"@ ==> dispatch_result(cmd, a) == pbkdf2_result(arg_str(a, 0), arg_bytes(a, 1), arg_bytes(a, 2), arg_u32(a, 3, 1), arg_u32(a, 4, 0)),
        cmd == "hkdf"@ ==> dispatch_result(cmd, a) == hkdf_result(arg_str(a, 0), arg_bytes(a, 1), arg_bytes(a, 2), arg_bytes(a, 3), arg_u32(a, 4, 0)),
        cmd != "digest"@ && cmd != "hmac"@ && cmd != "aes_gcm"@ && cmd != "aes_cbc"@ && cmd != "aes_ctr"@
            && cmd != "pbkdf2"@ && cmd != "hkdf"@ ==> dispatch_result(cmd, a) == Err::<Seq<u8>, Seq<char>>(
            "unknown crypto command: "@ + cmd),
{
    reveal_strlit("digest");
    reveal_strlit("hmac");
    reveal_strlit("aes_gcm");
    reveal_strlit("aes_cbc");
    reveal_strlit("aes_ctr");
    reveal_strlit("pbkdf2");
    reveal_strlit("hkdf");
    assert("digest"@.len() == 6 && "hmac"@.len() == 4 && "aes_gcm"@.len() == 7 && "pbkdf2"@.len() == 6
        && "hkdf"@.len() == 4 && "aes_cbc"@.len() == 7 && "aes_ctr"@.len() == 7);
    assert("digest"@[0] != "pbkdf2"@[0]);
    assert("hmac"@[1] != "hkdf"@[1]);
    assert("aes_gcm"@[4] != "aes_cbc"@[4]);
    assert("aes_gcm"@[4] != "aes_ctr"@[4]);
    assert("aes_cbc"@[5] != "aes_ctr"@[5]);
}

/// `{"error":<msg>}`.
pub open spec fn error_json(msg: Seq<char>) -> Seq<char> {
    "{\"error\":"@ + json_quote(msg) + "}"@
}

/// The reply of the crypto dispatcher: `{"result":<base64>}` with the bytes
/// of a successful command, `{"error":<message>}` otherwise.
pub open spec fn crypto_reply(cmd: Seq<char>, args_json: Seq<char>) -> Seq<char> {
    match json_array_parsed(args_json) {
        None => error_json("bad args: "@ + json_array_error(args_json)),
        Some(a) => match dispatch_result(cmd, a) {
            Ok(b) => "{\"result\":"@ + json_quote(base64_encoded(b)) + "}"@,
            Err(e) => error_json(e),
        },
    }
}

fn get_str(a: &Vec<JsonArg>, i: usize) -> (r: String)
    ensures
        r@ == arg_str(a@.map_values(|x: JsonArg| x@), i as int),
{
    if i < a.len() {
        match &a[i] {
            JsonArg::Str(s) => s.clone(),
            _ => String::new(),
        }
    } else {
        String::new()
    }
}

fn get_bytes(a: &Vec<JsonArg>, i: usize, limit: Ghost<nat>) -> (r: Vec<u8>)
    requires
        forall|k: int| 0 <= k < a@.len() ==> (#[trigger] a@[k] matches JsonArg::Str(s) ==> s@.len() <= limit@),
    ensures
        r@ == arg_bytes(a@.map_values(|x: JsonArg| x@), i as int),
        r@.len() <= limit@,
{
    if i < a.len() {
        match &a[i] {
            JsonArg::Str(s) => match base64_decode(s.as_str()) {
                Some(b) => b,
                None => Vec::new(),
            },
            _ => Vec::new(),
        }
    } else {
        Vec::new()
    }
}

fn get_bool(a: &Vec<JsonArg>, i: usize, default: bool) -> (r: bool)
    ensures
        r == arg_bool(a@.map_values(|x: JsonArg| x@), i as int, default),
{
    if i < a.len() {
        match &a[i] {
            JsonArg::Bool(b) => *b,
            _ => default,
        }
    } else {
        default
    }
}

fn get_u32(a: &Vec<JsonArg>, i: usize, default: u64) -> (r: u32)
    ensures
        r == arg_u32(a@.map_values(|x: JsonArg| x@), i as int, default),
{
    let v = if i < a.len() {
        match &a[i] {
            JsonArg::Num(Some(n)) => *n,
            _ => default,
        }
    } else {
        default
    };
    v as u32
}

fn error_reply(msg: &str) -> (r: String)
    ensures
        r@ == error_json(msg@),
{
    let mut out = string_from("{\"error\":");
    push_json_string(&mut out, msg);
    push_str(&mut out, "}");
    out
}

fn run_command(cmd: &str, a: &Vec<JsonArg>, limit: Ghost<nat>) -> (r: Result<Vec<u8>, String>)
    requires
        limit@ <= ctr32_data_limit(),
        forall|k: int| 0 <= k < a@.len() ==> (#[trigger] a@[k] matches JsonArg::Str(s) ==> s@.len() <= limit@),
    ensures
        rview(r) == dispatch_result(cmd@, a@.map_values(|x: JsonArg| x@)),
{
    let c = chars_of(cmd);
    if eq_str(&c, "digest") {
        let alg = get_str(a, 0);
        let data = get_bytes(a, 1, limit);
        Ok(op_subtle_digest_impl(alg.as_str(), data.as_slice()))
    } else if eq_str(&c, "hmac") {
        let hash = get_str(a, 0);
        let key = get_bytes(a, 1, limit);
        let data = get_bytes(a, 2, limit);
        op_subtle_hmac_impl(hash.as_str(), key.as_slice(), data.as_slice())
    } else if eq_str(&c, "aes_gcm") {
        let encrypt = get_bool(a, 0, true);
        let key = get_bytes(a, 1, limit);
        let iv = get_bytes(a, 2, limit);
        let aad = get_bytes(a, 3, limit);
        let data = get_bytes(a, 4, limit);
        op_subtle_aes_gcm_impl(encrypt, key.as_slice(), iv.as_slice(), aad.as_slice(), data.as_slice())
    } else if eq_str(&c, "aes_cbc") {
        let encrypt = get_bool(a, 0, true);
        let key = get_bytes(a, 1, limit);
        let iv = get_bytes(a, 2, limit);
        let data = get_bytes(a, 3, limit);
        op_subtle_aes_cbc_impl(encrypt, key.as_slice(), iv.as_slice(), data.as_slice())
    } else if eq_str(&c, "aes_ctr") {
        let key = get_bytes(a, 0, limit);
        let counter = get_bytes(a, 1, limit);
        let counter_length = get_u32(a, 2, 128);
        let data = get_bytes(a, 3, limit);
        op_subtle_aes_ctr_impl(key.as_slice(), counter.as_slice(), counter_length, data.as_slice())
    } else if eq_str(&c, "pbkdf2") {
        let hash = get_str(a, 0);
        let password = get_bytes(a, 1, limit);
        let salt = get_bytes(a, 2, limit);
        let iterations = get_u32(a, 3, 1);
        let length = get_u32(a, 4, 0);
        op_subtle_pbkdf2_impl(hash.as_str(), password.as_slice(), salt.as_slice(), iterations, length)
    } else if eq_str(&c, "hkdf") {
        let hash = get_str(a, 0);
        let ikm = get_bytes(a, 1, limit);
        let salt = get_bytes(a, 2, limit);
        let info = get_bytes(a, 3, limit);
        let length = get_u32(a, 4, 0);
        op_subtle_hkdf_impl(hash.as_str(), ikm.as_slice(), salt.as_slice(), info.as_slice(), length)
    } else {
        let mut m = string_from("unknown crypto command: ");
        push_str(&mut m, cmd);
        Err(m)
    }
}

/// Dispatch for all crypto ops: `args_json` is a JSON array of the command's
/// arguments, byte arrays in base64. With a 32-bit AES-CTR counter the data
/// must fit the counter (the cipher panics beyond), which an argument text of
/// at most that many chars ensures.
pub fn crypto_dispatch(cmd: &str, args_json: &str) -> (r: String)
    requires
        args_json@.len() <= ctr32_data_limit(),
    ensures
        r@ == crypto_reply(cmd@, args_json@),
{
    match parse_json_args(args_json) {
        Err(e) => {
            let mut m = string_from("bad args: ");
            push_str(&mut m, e.as_str());
            error_reply(m.as_str())
        },
        Ok(a) => match run_command(cmd, &a, Ghost(args_json@.len())) {
            Ok(bytes) => {
                let mut out = string_from("{\"result\":");
                let enc = base64_encode(bytes.as_slice());
                push_json_string(&mut out, enc.as_str());
                push_str(&mut out, "}");
                out
            },
            Err(e) => error_reply(e.as_str()),
        },
    }
}

} // verus!
