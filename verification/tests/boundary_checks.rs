//! Cross-checks of the library's cryptographic boundary against direct
//! calls of the underlying crates: key derivation, the outer tag and the
//! AEAD wire form must match what the crates themselves produce.

use aes_gcm::aead::Aead;
use aes_gcm::KeyInit;
use hmac::Mac;
use violet_soul::aead::{encrypt_aes_gcm, encrypt_chacha20};
use violet_soul::envelope::v4_encrypt;
use violet_soul::fileset::local_salt_label;
use violet_soul::kdf::derive_key_argon2;
use violet_soul::seed::derive_embedded_key;

#[test]
fn derive_key_argon2_matches_a_direct_derivation() {
    let salt = [0x5Cu8; 32];
    let key = derive_key_argon2("cross-check", &salt).unwrap();

    let mut input = b"cross-check".to_vec();
    input.extend_from_slice(&derive_embedded_key());
    let mut expected = [0u8; 32];
    argon2::Argon2::default()
        .hash_password_into(&input, &salt, &mut expected)
        .unwrap();
    assert_eq!(key, expected);
}

#[test]
fn the_envelope_tag_is_hmac_sha256_under_the_seed() {
    let blob = v4_encrypt("pw", local_salt_label(), b"tagged").unwrap();
    let body = &blob[1..blob.len() - 32];
    let mut mac =
        <hmac::Hmac<sha2::Sha256> as Mac>::new_from_slice(&derive_embedded_key()).unwrap();
    mac.update(body);
    let expected = mac.finalize().into_bytes();
    assert_eq!(&blob[blob.len() - 32..], expected.as_slice());
}

#[test]
fn aes_gcm_wire_form_opens_with_the_crate_directly() {
    let key = [0x77u8; 32];
    let wire = encrypt_aes_gcm(&key, b"primitive check").unwrap();
    let cipher = aes_gcm::Aes256Gcm::new_from_slice(&key).unwrap();
    let plain = cipher
        .decrypt(aes_gcm::Nonce::from_slice(&wire[..12]), &wire[12..])
        .unwrap();
    assert_eq!(plain, b"primitive check".to_vec());
}

#[test]
fn chacha20_wire_form_opens_with_the_crate_directly() {
    let key = [0x88u8; 32];
    let wire = encrypt_chacha20(&key, b"primitive check").unwrap();
    let cipher = chacha20poly1305::ChaCha20Poly1305::new_from_slice(&key).unwrap();
    let plain = cipher
        .decrypt(chacha20poly1305::Nonce::from_slice(&wire[..12]), &wire[12..])
        .unwrap();
    assert_eq!(plain, b"primitive check".to_vec());
}
