use base64::Engine;
use bff::utils::crypto::{decrypt, encrypt, init, CryptoError};

#[test]
fn test_encrypt_decrypt_roundtrip() {
    let c = init("my-super-secret-key-for-testing", "abcdefghijklmnop").expect("初始化应成功");
    let plaintext = b"hello, world! this is a test message";
    let encrypted = encrypt(&c, plaintext).expect("加密应成功");
    let decrypted = decrypt(&c, &encrypted).expect("解密应成功");
    assert_eq!(decrypted, plaintext);
}

#[test]
fn test_encrypt_empty_plaintext() {
    let c = init("another-secret-key-for", "1234567890123456").expect("初始化应成功");
    let encrypted = encrypt(&c, b"").expect("空明文加密应成功");
    let decrypted = decrypt(&c, &encrypted).expect("解密应成功");
    assert_eq!(decrypted, b"");
}

#[test]
fn test_decrypt_tampered_ciphertext() {
    let c = init("test-key-1234567890", "saltsaltsaltsalt").expect("初始化应成功");
    let encrypted = encrypt(&c, b"sensitive data").expect("加密应成功");
    let mut raw = base64::engine::general_purpose::URL_SAFE_NO_PAD
        .decode(&encrypted)
        .expect("base64 decode");
    let nonce_len = 12;
    if raw.len() > nonce_len {
        raw[nonce_len] ^= 0x01;
    }
    let tampered = base64::engine::general_purpose::URL_SAFE_NO_PAD.encode(&raw);
    let result = decrypt(&c, &tampered);
    assert!(result.is_err(), "篡改密文解密应失败");
}

#[test]
fn test_different_nonces_produce_different_ciphertexts() {
    let c = init("key-one-abcdefghij", "salt11111111111111").expect("初始化应成功");
    let ct1 = encrypt(&c, b"same plaintext").expect("加密应成功");
    let ct2 = encrypt(&c, b"same plaintext").expect("加密应成功");
    assert_ne!(ct1, ct2, "不同 nonce 应产生不同密文");
}

#[test]
fn test_init_rejects_short_salt() {
    assert!(init("secret", "short").is_err());
}

#[test]
fn test_init_rejects_empty_secret() {
    assert!(init("", "1234567890123456").is_err());
}

#[test]
fn crypto_errors() {
    assert!(matches!(init("", "1234567890123456"), Err(CryptoError::EmptySecret)));
    assert!(matches!(init("s", "short"), Err(CryptoError::ShortSalt { bytes: 5 })));
    let c = init("k", "0123456789abcdef").unwrap();
    assert!(matches!(decrypt(&c, "!!!"), Err(CryptoError::Base64)));
    assert!(matches!(decrypt(&c, "AAAA"), Err(CryptoError::TooShort)));
    let other = init("k2", "0123456789abcdef").unwrap();
    let sealed = encrypt(&c, b"x").unwrap();
    assert!(matches!(decrypt(&other, &sealed), Err(CryptoError::Decrypt)));
}
