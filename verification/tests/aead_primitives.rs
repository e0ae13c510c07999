use violet_soul::aead::{
    decrypt_aes_cbc, decrypt_aes_gcm, decrypt_chacha20, encrypt_aes_gcm, encrypt_chacha20,
};
use violet_soul::CipherError;

#[test]
fn aes_gcm_round_trip_with_fresh_nonce() {
    let key = [0x11u8; 32];
    let a = encrypt_aes_gcm(&key, b"attack at dawn").unwrap();
    let b = encrypt_aes_gcm(&key, b"attack at dawn").unwrap();
    assert_eq!(a.len(), 14 + 28);
    assert_ne!(a, b, "nonces must be fresh per encryption");
    assert_eq!(decrypt_aes_gcm(&key, &a).unwrap(), b"attack at dawn".to_vec());
    assert_eq!(decrypt_aes_gcm(&key, &b).unwrap(), b"attack at dawn".to_vec());
}

#[test]
fn aes_gcm_rejects_short_and_tampered_input() {
    let key = [0x11u8; 32];
    assert_eq!(decrypt_aes_gcm(&key, &[0u8; 27]).unwrap_err(), CipherError::Malformed);
    let mut ct = encrypt_aes_gcm(&key, b"payload").unwrap();
    let last = ct.len() - 1;
    ct[last] ^= 1;
    assert_eq!(decrypt_aes_gcm(&key, &ct).unwrap_err(), CipherError::Auth);
}

#[test]
fn aes_gcm_rejects_the_wrong_key() {
    let ct = encrypt_aes_gcm(&[0x11u8; 32], b"payload").unwrap();
    assert_eq!(decrypt_aes_gcm(&[0x22u8; 32], &ct).unwrap_err(), CipherError::Auth);
}

#[test]
fn chacha20_round_trip_and_rejection() {
    let key = [0x42u8; 32];
    let ct = encrypt_chacha20(&key, b"middle layer").unwrap();
    assert_eq!(ct.len(), 12 + 28);
    assert_eq!(decrypt_chacha20(&key, &ct).unwrap(), b"middle layer".to_vec());
    assert_eq!(decrypt_chacha20(&key, &[0u8; 10]).unwrap_err(), CipherError::Malformed);
    let mut bad = ct.clone();
    bad[15] ^= 0x04;
    assert_eq!(decrypt_chacha20(&key, &bad).unwrap_err(), CipherError::Auth);
}

#[test]
fn cbc_read_primitive_checks_its_minimum_length() {
    let key = [0x33u8; 32];
    assert_eq!(decrypt_aes_cbc(&key, &[0u8; 31]).unwrap_err(), CipherError::Malformed);
}
