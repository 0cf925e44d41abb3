use aes_gcm::aead::{Aead, KeyInit};
use base64::Engine;
use es_client::crypto::{CryptoError, CryptoManager, EncryptedData, SecureString};

fn flip_byte(text: &str, at: usize) -> String {
    let mut bytes = base64::engine::general_purpose::STANDARD.decode(text).unwrap();
    bytes[at] ^= 0x01;
    base64::engine::general_purpose::STANDARD.encode(bytes)
}

#[test]
fn test_encrypt_decrypt() {
    let crypto = CryptoManager::generate();
    let password = "test_password_123";
    let encrypted = crypto.encrypt_password(password).unwrap();
    let decrypted = crypto.decrypt_password(&encrypted).unwrap();
    assert_eq!(password, decrypted);
}

#[test]
fn test_secure_string() {
    let secure = SecureString::new("sensitive_data".to_string());
    assert_eq!(secure.as_str().unwrap(), "sensitive_data");
}

#[test]
fn round_trip_keeps_non_ascii_secret() {
    let crypto = CryptoManager::generate();
    for secret in ["p", "密码-пароль-🔑", "with space and \"quotes\""] {
        let sealed = crypto.encrypt_password(secret).unwrap();
        assert_ne!(sealed.ciphertext, secret);
        assert_eq!(crypto.decrypt_password(&sealed).unwrap(), secret);
    }
}

#[test]
fn nonce_is_fresh_for_every_encryption() {
    let crypto = CryptoManager::generate();
    let mut seen = std::collections::HashSet::new();
    for _ in 0..500 {
        let sealed = crypto.encrypt_password("same secret").unwrap();
        let nonce = base64::engine::general_purpose::STANDARD.decode(&sealed.nonce).unwrap();
        assert_eq!(nonce.len(), 12);
        assert!(seen.insert(sealed.nonce.clone()));
    }
}

#[test]
fn flipped_ciphertext_byte_fails_authentication() {
    let crypto = CryptoManager::generate();
    let sealed = crypto.encrypt_password("hunter2").unwrap();
    let n = base64::engine::general_purpose::STANDARD.decode(&sealed.ciphertext).unwrap().len();
    for at in 0..n {
        let tampered = EncryptedData { ciphertext: flip_byte(&sealed.ciphertext, at), nonce: sealed.nonce.clone() };
        assert_eq!(crypto.decrypt_password(&tampered), Err(CryptoError::AuthenticationFailed));
    }
}

#[test]
fn flipped_nonce_byte_fails_authentication() {
    let crypto = CryptoManager::generate();
    let sealed = crypto.encrypt_password("hunter2").unwrap();
    for at in 0..12 {
        let tampered = EncryptedData { ciphertext: sealed.ciphertext.clone(), nonce: flip_byte(&sealed.nonce, at) };
        assert_eq!(crypto.decrypt_password(&tampered), Err(CryptoError::AuthenticationFailed));
    }
}

#[test]
fn other_key_fails_authentication() {
    let a = CryptoManager::generate();
    let b = CryptoManager::generate();
    let sealed = a.encrypt_password("secret").unwrap();
    assert_eq!(b.decrypt_password(&sealed), Err(CryptoError::AuthenticationFailed));
}

#[test]
fn empty_password_is_refused() {
    let crypto = CryptoManager::generate();
    assert_eq!(crypto.encrypt_password("").unwrap_err(), CryptoError::EmptySecret);
}

#[test]
fn malformed_base64_is_a_decode_error() {
    let crypto = CryptoManager::generate();
    let sealed = crypto.encrypt_password("secret").unwrap();
    let bad_nonce = EncryptedData { ciphertext: sealed.ciphertext.clone(), nonce: "***".to_string() };
    assert_eq!(crypto.decrypt_password(&bad_nonce), Err(CryptoError::DecodeError));
    let bad_text = EncryptedData { ciphertext: "not base64!".to_string(), nonce: sealed.nonce.clone() };
    assert_eq!(crypto.decrypt_password(&bad_text), Err(CryptoError::DecodeError));
}

#[test]
fn short_nonce_is_refused() {
    let crypto = CryptoManager::generate();
    let sealed = crypto.encrypt_password("secret").unwrap();
    let short = EncryptedData {
        ciphertext: sealed.ciphertext.clone(),
        nonce: base64::engine::general_purpose::STANDARD.encode([0u8; 8]),
    };
    assert_eq!(crypto.decrypt_password(&short), Err(CryptoError::InvalidNonceLength));
}

#[test]
fn non_utf8_plaintext_is_refused() {
    let crypto = CryptoManager::generate();
    let key = crypto.key_bytes();
    let cipher = aes_gcm::Aes256Gcm::new(aes_gcm::Key::<aes_gcm::Aes256Gcm>::from_slice(&key));
    let nonce = [7u8; 12];
    let sealed = cipher.encrypt(aes_gcm::Nonce::from_slice(&nonce), &[0xffu8, 0xfe][..]).unwrap();
    let data = EncryptedData {
        ciphertext: base64::engine::general_purpose::STANDARD.encode(sealed),
        nonce: base64::engine::general_purpose::STANDARD.encode(nonce),
    };
    assert_eq!(crypto.decrypt_password(&data), Err(CryptoError::InvalidUtf8));
}

#[test]
fn key_file_must_hold_one_key() {
    assert!(matches!(CryptoManager::from_key_bytes(&[1u8; 31]), Err(CryptoError::InvalidKeyFile)));
    assert!(matches!(CryptoManager::from_key_bytes(&[1u8; 33]), Err(CryptoError::InvalidKeyFile)));
    let m = CryptoManager::from_key_bytes(&[9u8; 32]).unwrap();
    assert_eq!(m.key_bytes(), vec![9u8; 32]);
}

#[test]
fn reloaded_key_opens_earlier_secret() {
    let first = CryptoManager::generate();
    let sealed = first.encrypt_password("kept").unwrap();
    let again = CryptoManager::from_key_bytes(&first.key_bytes()).unwrap();
    assert_eq!(again.decrypt_password(&sealed).unwrap(), "kept");
}

#[test]
fn secure_wipe_zeroes_every_byte() {
    let mut data = vec![1u8, 2, 3, 4];
    CryptoManager::secure_wipe(&mut data);
    assert_eq!(data, vec![0u8; 4]);
}

#[test]
fn secure_string_holds_empty_text() {
    let secure = SecureString::new(String::new());
    assert_eq!(secure.as_str().unwrap(), "");
}

#[test]
fn ciphertext_is_plaintext_plus_tag() {
    let crypto = CryptoManager::generate();
    for secret in ["a", "0123456789", "密码"] {
        let sealed = crypto.encrypt_password(secret).unwrap();
        let bytes = base64::engine::general_purpose::STANDARD.decode(&sealed.ciphertext).unwrap();
        assert_eq!(bytes.len(), secret.len() + 16);
    }
}
