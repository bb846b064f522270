use obscura_js::crypto::{
    crypto_dispatch, op_random_bytes_impl, op_subtle_aes_cbc_impl, op_subtle_aes_ctr_impl, op_subtle_aes_gcm_impl,
    op_subtle_digest_impl, op_subtle_hkdf_impl, op_subtle_hmac_impl, op_subtle_pbkdf2_impl,
};

fn hex(b: &[u8]) -> String {
    b.iter().map(|x| format!("{:02x}", x)).collect()
}

fn unhex(s: &str) -> Vec<u8> {
    (0..s.len()).step_by(2).map(|i| u8::from_str_radix(&s[i..i + 2], 16).unwrap()).collect()
}

#[test]
fn digests() {
    assert_eq!(hex(&op_subtle_digest_impl("SHA-256", b"abc")), "ba7816bf8f01cfea414140de5dae2223b00361a396177a9cb410ff61f20015ad");
    assert_eq!(hex(&op_subtle_digest_impl("sha-1", b"abc")), "a9993e364706816aba3e25717850c26c9cd0d89d");
    assert_eq!(op_subtle_digest_impl("SHA-384", b"").len(), 48);
    assert_eq!(op_subtle_digest_impl("SHA-512", b"").len(), 64);
    assert_eq!(op_subtle_digest_impl("SHA-512/224", b"").len(), 28);
    assert_eq!(op_subtle_digest_impl("SHA-512/256", b"").len(), 32);
    assert!(op_subtle_digest_impl("MD5", b"abc").is_empty());
}

#[test]
fn hmac_known_value_and_error() {
    let mac = op_subtle_hmac_impl("SHA-256", b"key", b"The quick brown fox jumps over the lazy dog").unwrap();
    assert_eq!(hex(&mac), "f7bc83f430538424b13298e6aa6fb143ef4d59a14946175997479dbc2d1a3cd8");
    assert_eq!(op_subtle_hmac_impl("sha-256", b"key", b"x"), Err("unsupported HMAC hash".to_string()));
}

#[test]
fn aes_gcm_round_trip_and_errors() {
    let key = [7u8; 16];
    let iv = [1u8; 12];
    let ct = op_subtle_aes_gcm_impl(true, &key, &iv, b"aad", b"secret").unwrap();
    assert_eq!(ct.len(), 6 + 16);
    assert_eq!(op_subtle_aes_gcm_impl(false, &key, &iv, b"aad", &ct).unwrap(), b"secret".to_vec());
    assert_eq!(
        op_subtle_aes_gcm_impl(false, &key, &iv, b"other", &ct),
        Err("AES-GCM decryption failed: authentication tag mismatch".to_string())
    );
    assert_eq!(op_subtle_aes_gcm_impl(true, &key, &[0u8; 8], b"", b"x"), Err("AES-GCM requires a 96-bit (12-byte) IV".to_string()));
    assert_eq!(op_subtle_aes_gcm_impl(true, &[0u8; 10], &iv, b"", b"x"), Err("AES-GCM key must be 128, 192, or 256 bits".to_string()));
    assert!(op_subtle_aes_gcm_impl(true, &[0u8; 24], &iv, b"", b"x").is_ok());
    assert!(op_subtle_aes_gcm_impl(true, &[0u8; 32], &iv, b"", b"x").is_ok());
}

#[test]
fn aes_cbc_round_trip_and_errors() {
    let key = [9u8; 32];
    let iv = [2u8; 16];
    let ct = op_subtle_aes_cbc_impl(true, &key, &iv, b"sixteen byte msg").unwrap();
    assert_eq!(ct.len(), 32);
    assert_eq!(op_subtle_aes_cbc_impl(false, &key, &iv, &ct).unwrap(), b"sixteen byte msg".to_vec());
    assert_eq!(op_subtle_aes_cbc_impl(true, &key, &[0u8; 15], b"x"), Err("AES-CBC requires a 16-byte IV".to_string()));
    assert_eq!(op_subtle_aes_cbc_impl(true, &[0u8; 17], &iv, b"x"), Err("AES-CBC key must be 128, 192, or 256 bits".to_string()));
    assert_eq!(
        op_subtle_aes_cbc_impl(false, &key, &iv, &[0u8; 16]).err().map(|e| e.starts_with("AES-CBC decryption failed")),
        Some(true)
    );
}

#[test]
fn aes_ctr_round_trip_and_errors() {
    let key = [3u8; 16];
    let ctr = [0u8; 16];
    for bits in [32u32, 64, 128] {
        let ct = op_subtle_aes_ctr_impl(&key, &ctr, bits, b"stream").unwrap();
        assert_eq!(ct.len(), 6);
        assert_eq!(op_subtle_aes_ctr_impl(&key, &ctr, bits, &ct).unwrap(), b"stream".to_vec());
    }
    assert_eq!(op_subtle_aes_ctr_impl(&key, &[0u8; 8], 128, b"x"), Err("AES-CTR requires a 16-byte counter block".to_string()));
    assert_eq!(op_subtle_aes_ctr_impl(&key, &ctr, 48, b"x"), Err("AES-CTR supports counter lengths of 32, 64, or 128 bits".to_string()));
    assert_eq!(op_subtle_aes_ctr_impl(&[0u8; 5], &ctr, 64, b"x"), Err("AES-CTR key must be 128, 192, or 256 bits".to_string()));
}

#[test]
fn pbkdf2_known_value() {
    let dk = op_subtle_pbkdf2_impl("SHA-1", b"password", b"salt", 1, 20).unwrap();
    assert_eq!(hex(&dk), "0c60c80f961f0e71f3a9b524af6012062fe037a6");
    assert_eq!(op_subtle_pbkdf2_impl("MD5", b"p", b"s", 1, 4), Err("unsupported PBKDF2 hash".to_string()));
    assert_eq!(op_subtle_pbkdf2_impl("SHA-256", b"p", b"s", 1, 0).unwrap().len(), 0);
}

#[test]
fn hkdf_known_value_and_limits() {
    let ikm = vec![0x0bu8; 22];
    let salt = unhex("000102030405060708090a0b0c");
    let info = unhex("f0f1f2f3f4f5f6f7f8f9");
    let okm = op_subtle_hkdf_impl("SHA-256", &ikm, &salt, &info, 42).unwrap();
    assert_eq!(hex(&okm), "3cb25f25faacd57a90434f64d0362f2a2d2d0a90cf1a5a4c5db02d56ecc4c5bf34007208d5b887185865");
    assert_eq!(op_subtle_hkdf_impl("SHA-256", &ikm, &salt, &info, 255 * 32).unwrap().len(), 255 * 32);
    assert_eq!(
        op_subtle_hkdf_impl("SHA-256", &ikm, &salt, &info, 255 * 32 + 1),
        Err("HKDF: requested key length is too long".to_string())
    );
    assert_eq!(op_subtle_hkdf_impl("SHA-3", &ikm, &salt, &info, 1), Err("unsupported HKDF hash".to_string()));
}

#[test]
fn random_bytes_have_the_asked_length() {
    assert_eq!(op_random_bytes_impl(0).unwrap().len(), 0);
    assert_eq!(op_random_bytes_impl(33).unwrap().len(), 33);
}

#[test]
fn dispatcher_replies() {
    assert_eq!(
        crypto_dispatch("digest", "[\"SHA-256\",\"YWJj\"]"),
        "{\"result\":\"ungWv48Bz+pBQUDeXa4iI7ADYaOWF3qctBD/YfIAFa0=\"}"
    );
    assert_eq!(crypto_dispatch("nope", "[]"), "{\"error\":\"unknown crypto command: nope\"}");
    assert!(crypto_dispatch("digest", "not json").starts_with("{\"error\":\"bad args: "));
    assert_eq!(crypto_dispatch("hmac", "[\"MD5\",\"\",\"\"]"), "{\"error\":\"unsupported HMAC hash\"}");
    // Missing arguments fall back to their defaults: empty data.
    assert_eq!(
        crypto_dispatch("digest", "[\"SHA-1\"]"),
        "{\"result\":\"2jmj7l5rSw0yVb/vlWAYkK/YBwk=\"}"
    );
}
